use vstd::prelude::*;
use crate::hackathon::{
    with_total_views, HackathonId, HackathonWithTotalPrize, HackathonWithTotalPrizeView,
};
use crate::text::{copy_ids, copy_opt_text};

verus! {

/// An identity of the host environment, as text.
pub type AccountId = String;

/// A registered member, keyed by identity.
pub struct Member {
    pub id: AccountId,
    pub name: String,
    pub image: Option<String>,
    pub bio: Option<String>,
    pub joined_hackathons: Vec<HackathonId>,
    pub created_hackathons: Vec<HackathonId>,
}

/// What a `Member` holds, with its lists as sequences.
pub ghost struct MemberView {
    pub id: AccountId,
    pub name: String,
    pub image: Option<String>,
    pub bio: Option<String>,
    pub joined_hackathons: Seq<HackathonId>,
    pub created_hackathons: Seq<HackathonId>,
}

impl View for Member {
    type V = MemberView;

    open spec fn view(&self) -> MemberView {
        MemberView {
            id: self.id,
            name: self.name,
            image: self.image,
            bio: self.bio,
            joined_hackathons: self.joined_hackathons@,
            created_hackathons: self.created_hackathons@,
        }
    }
}

impl Member {
    /// A fresh member that has joined and created nothing.
    pub fn new(account_id: &AccountId, name: String, image: Option<String>, bio: Option<String>) -> (member: Self)
        ensures
            member@ == (MemberView {
                id: *account_id,
                name,
                image,
                bio,
                joined_hackathons: Seq::empty(),
                created_hackathons: Seq::empty(),
            }),
    {
        Member {
            id: account_id.clone(),
            name,
            image,
            bio,
            joined_hackathons: Vec::new(),
            created_hackathons: Vec::new(),
        }
    }

    /// The member's public profile.
    pub open spec fn spec_profile(&self) -> MemberJson {
        MemberJson { id: self.id, name: self.name, image: self.image, bio: self.bio }
    }

    /// The member's public profile.
    pub fn profile(&self) -> (json: MemberJson)
        ensures
            json == self.spec_profile(),
    {
        MemberJson {
            id: self.id.clone(),
            name: self.name.clone(),
            image: copy_opt_text(&self.image),
            bio: copy_opt_text(&self.bio),
        }
    }

    /// A copy of the record.
    pub fn copy(&self) -> (member: Self)
        ensures
            member@ == self@,
    {
        Member {
            id: self.id.clone(),
            name: self.name.clone(),
            image: copy_opt_text(&self.image),
            bio: copy_opt_text(&self.bio),
            joined_hackathons: copy_ids(&self.joined_hackathons),
            created_hackathons: copy_ids(&self.created_hackathons),
        }
    }
}

/// A member's public profile.
pub struct MemberJson {
    pub id: AccountId,
    pub name: String,
    pub image: Option<String>,
    pub bio: Option<String>,
}

impl MemberJson {
    /// A copy of the profile.
    pub fn copy(&self) -> (json: Self)
        ensures
            json == *self,
    {
        MemberJson {
            id: self.id.clone(),
            name: self.name.clone(),
            image: copy_opt_text(&self.image),
            bio: copy_opt_text(&self.bio),
        }
    }
}

/// A member's profile with the hackathons joined and created, each with its total prize.
pub struct MemberJsonDetail {
    pub id: AccountId,
    pub name: String,
    pub image: Option<String>,
    pub bio: Option<String>,
    pub joined_hackathons: Vec<HackathonWithTotalPrize>,
    pub created_hackathons: Vec<HackathonWithTotalPrize>,
}

/// What a `MemberJsonDetail` holds, with its lists as sequences.
pub ghost struct MemberJsonDetailView {
    pub id: AccountId,
    pub name: String,
    pub image: Option<String>,
    pub bio: Option<String>,
    pub joined_hackathons: Seq<HackathonWithTotalPrizeView>,
    pub created_hackathons: Seq<HackathonWithTotalPrizeView>,
}

impl View for MemberJsonDetail {
    type V = MemberJsonDetailView;

    open spec fn view(&self) -> MemberJsonDetailView {
        MemberJsonDetailView {
            id: self.id,
            name: self.name,
            image: self.image,
            bio: self.bio,
            joined_hackathons: with_total_views(self.joined_hackathons@),
            created_hackathons: with_total_views(self.created_hackathons@),
        }
    }
}

} // verus!
