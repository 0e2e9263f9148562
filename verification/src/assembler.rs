use vstd::prelude::*;
use crate::award::{award_json_views, AwardId, AwardJson, AwardJsonView};
use crate::category::{
    category_json_views, category_views, Category, CategoryId, CategoryJson, CategoryJsonView,
    CategoryView,
};
use crate::contract::HackathonContract;
use crate::error::LedgerError;
use crate::hackathon::{
    with_total_views, Hackathon, HackathonId, HackathonJson, HackathonJsonView,
    HackathonWithTotalPrize, HackathonWithTotalPrizeView,
};
use crate::member::{AccountId, MemberJson, MemberJsonDetail, MemberJsonDetailView};
use crate::submission::{
    submission_json_views, SubmissionId, SubmissionJson, SubmissionJsonView,
};
use crate::text::{copy_opt_text, copy_texts};

verus! {

/// The values that are present, in order.
pub open spec fn gather<T>(items: Seq<Option<T>>) -> Seq<T>
    decreases items.len(),
{
    if items.len() == 0 {
        Seq::empty()
    } else {
        match items.last() {
            Some(x) => gather(items.drop_last()).push(x),
            None => gather(items.drop_last()),
        }
    }
}

/// Gathering one item more appends it if it is present.
pub proof fn lemma_gather_step<T>(items: Seq<Option<T>>, n: int)
    requires
        0 <= n < items.len(),
    ensures
        gather(items.take(n + 1)) == (match items[n] {
            Some(x) => gather(items.take(n)).push(x),
            None => gather(items.take(n)),
        }),
{
    assert(items.take(n + 1).drop_last() =~= items.take(n));
}

/// Where every item is present, gathering removes the wrapping and nothing else.
pub proof fn lemma_gather_all_present<T>(items: Seq<Option<T>>)
    requires
        forall|i: int| 0 <= i < items.len() ==> (#[trigger] items[i]).is_some(),
    ensures
        gather(items).len() == items.len(),
        forall|i: int| 0 <= i < items.len() ==> (#[trigger] gather(items)[i]) == items[i].unwrap(),
    decreases items.len(),
{
    if items.len() > 0 {
        let rest = items.drop_last();
        assert forall|i: int| 0 <= i < rest.len() implies (#[trigger] rest[i]).is_some() by {
            assert(rest[i] == items[i]);
        }
        lemma_gather_all_present(rest);
        assert forall|i: int| 0 <= i < items.len() implies (#[trigger] gather(items)[i])
            == items[i].unwrap() by {
            if i < rest.len() {
                assert(gather(items)[i] == gather(rest)[i]);
                assert(rest[i] == items[i]);
            }
        }
    }
}

impl HackathonContract {
    /// The position of the record of `who`, where `who` is a member.
    pub open spec fn member_index(&self, who: Seq<char>) -> int {
        choose|i: int| 0 <= i < self.members@.len() && (#[trigger] self.members@[i]).id@ == who
    }

    /// The profile of `who`, if `who` is a member.
    pub open spec fn member_json(&self, who: Seq<char>) -> Option<MemberJson> {
        if self.is_member_spec(who) {
            Some(self.members@[self.member_index(who)].spec_profile())
        } else {
            None
        }
    }

    /// The profile of each listed name, where there is one.
    pub open spec fn member_lookups(&self, names: Seq<AccountId>) -> Seq<Option<MemberJson>> {
        Seq::new(names.len(), |i: int| self.member_json(names[i]@))
    }

    /// The record of category `id`, if it is stored.
    pub open spec fn category_record(&self, id: CategoryId) -> Option<CategoryView> {
        if id < self.categories@.len() {
            Some(self.categories@[id as int]@)
        } else {
            None
        }
    }

    /// The record of each listed category, where there is one.
    pub open spec fn category_records(&self, ids: Seq<CategoryId>) -> Seq<Option<CategoryView>> {
        Seq::new(ids.len(), |i: int| self.category_record(ids[i]))
    }

    /// Submission `id` with its categories and members resolved; those that are
    /// not stored are left out.
    pub open spec fn submission_json(&self, id: SubmissionId) -> Option<SubmissionJsonView> {
        if id < self.submissions@.len() {
            let s = self.submissions@[id as int];
            Some(
                SubmissionJsonView {
                    id: s.id,
                    name: s.name,
                    description: s.description,
                    image: s.image,
                    time: s.time,
                    link: s.link@,
                    categories: gather(self.category_records(s.categories@)),
                    members: gather(self.member_lookups(s.members@)),
                },
            )
        } else {
            None
        }
    }

    /// Each listed submission resolved, where it is stored.
    pub open spec fn submission_jsons(&self, ids: Seq<SubmissionId>) -> Seq<Option<SubmissionJsonView>> {
        Seq::new(ids.len(), |i: int| self.submission_json(ids[i]))
    }

    /// Award `id` with its winner resolved: absent while the award is open.
    pub open spec fn award_json(&self, id: AwardId) -> Option<AwardJsonView> {
        if id < self.awards@.len() {
            let a = self.awards@[id as int];
            Some(
                AwardJsonView {
                    id: a.id,
                    name: a.name,
                    price: a.price,
                    winner: match a.winner {
                        Some(s) => self.submission_json(s),
                        None => None,
                    },
                    is_awarded: a.is_awarded,
                },
            )
        } else {
            None
        }
    }

    /// Each listed award resolved, where it is stored.
    pub open spec fn award_jsons(&self, ids: Seq<AwardId>) -> Seq<Option<AwardJsonView>> {
        Seq::new(ids.len(), |i: int| self.award_json(ids[i]))
    }

    /// Category `id` with its awards resolved.
    pub open spec fn category_json(&self, id: CategoryId) -> Option<CategoryJsonView> {
        if id < self.categories@.len() {
            let c = self.categories@[id as int];
            Some(CategoryJsonView { id: c.id, name: c.name, awards: gather(self.award_jsons(c.awards@)) })
        } else {
            None
        }
    }

    /// Each listed category resolved, where it is stored.
    pub open spec fn category_jsons(&self, ids: Seq<CategoryId>) -> Seq<Option<CategoryJsonView>> {
        Seq::new(ids.len(), |i: int| self.category_json(ids[i]))
    }

    /// The nested detail of hackathon `id`.
    pub open spec fn hackathon_json(&self, id: HackathonId) -> HackathonJsonView
        recommends
            id < self.hackathons@.len(),
    {
        let h = self.hackathons@[id as int];
        HackathonJsonView {
            participants: gather(self.member_lookups(h.participants_list@)),
            submissions: gather(self.submission_jsons(h.submissions_list@)),
            categories: gather(self.category_jsons(h.categories_list@)),
        }
    }

    /// Hackathon `id` with its total prize, if it is stored.
    pub open spec fn with_total(&self, id: HackathonId) -> Option<HackathonWithTotalPrizeView> {
        if id < self.hackathons@.len() {
            Some(
                HackathonWithTotalPrizeView {
                    hackathon: self.hackathons@[id as int]@,
                    total_prize: self.total_prize(&self.hackathons@[id as int]) as u128,
                },
            )
        } else {
            None
        }
    }

    /// Each listed hackathon with its total prize, where it is stored.
    pub open spec fn with_totals(&self, ids: Seq<HackathonId>) -> Seq<Option<HackathonWithTotalPrizeView>> {
        Seq::new(ids.len(), |i: int| self.with_total(ids[i]))
    }

    /// The profile of `who` with the hackathons joined and created, those that
    /// are stored, each with its total prize; absent where `who` is no member.
    pub open spec fn user_detail(&self, who: Seq<char>) -> Option<MemberJsonDetailView> {
        if self.is_member_spec(who) {
            let m = self.members@[self.member_index(who)];
            Some(
                MemberJsonDetailView {
                    id: m.id,
                    name: m.name,
                    image: m.image,
                    bio: m.bio,
                    joined_hackathons: gather(self.with_totals(m.joined_hackathons@)),
                    created_hackathons: gather(self.with_totals(m.created_hackathons@)),
                },
            )
        } else {
            None
        }
    }

    /// A copy of hackathon `hackathon_id`, if it is stored.
    pub fn get_hackathon_by_id(&self, hackathon_id: HackathonId) -> (found: Option<Hackathon>)
        ensures
            match found {
                Some(h) => hackathon_id < self.hackathons@.len() && h@ == self.hackathons@[hackathon_id as int]@,
                None => hackathon_id >= self.hackathons@.len(),
            },
    {
        if hackathon_id < self.hackathons.len() as u64 {
            Some(self.hackathons[hackathon_id as usize].copy())
        } else {
            None
        }
    }

    /// The profile of `member_id`, if they are a member.
    pub fn get_member_by_id(&self, member_id: &AccountId) -> (found: Option<MemberJson>)
        requires
            self.members_distinct(),
        ensures
            found == self.member_json(member_id@),
    {
        match self.find_member(member_id) {
            Some(i) => Some(self.members[i].profile()),
            None => None,
        }
    }

    /// The profiles of the listed names that are members, in order.
    pub fn profiles_of(&self, names: &Vec<AccountId>) -> (out: Vec<MemberJson>)
        requires
            self.members_distinct(),
        ensures
            out@ == gather(self.member_lookups(names@)),
    {
        let ghost src = self.member_lookups(names@);
        let mut out: Vec<MemberJson> = Vec::new();
        let mut k: usize = 0;
        while k < names.len()
            invariant
                self.members_distinct(),
                k <= names@.len(),
                src == self.member_lookups(names@),
                out@ == gather(src.take(k as int)),
            decreases names@.len() - k,
        {
            proof {
                lemma_gather_step(src, k as int);
            }
            match self.get_member_by_id(&names[k]) {
                Some(profile) => {
                    out.push(profile);
                },
                None => {},
            }
            k += 1;
        }
        assert(src.take(src.len() as int) =~= src);
        out
    }

    /// Copies of the listed category records that are stored, in order.
    pub fn records_of_categories(&self, ids: &Vec<CategoryId>) -> (out: Vec<Category>)
        ensures
            category_views(out@) == gather(self.category_records(ids@)),
    {
        let ghost src = self.category_records(ids@);
        let mut out: Vec<Category> = Vec::new();
        let mut k: usize = 0;
        while k < ids.len()
            invariant
                k <= ids@.len(),
                src == self.category_records(ids@),
                category_views(out@) == gather(src.take(k as int)),
            decreases ids@.len() - k,
        {
            proof {
                lemma_gather_step(src, k as int);
            }
            let id: u64 = ids[k];
            if id < self.categories.len() as u64 {
                let ghost before = out@;
                let record = self.categories[id as usize].copy();
                out.push(record);
                assert(category_views(out@) =~= category_views(before).push(record@));
            }
            k += 1;
        }
        assert(src.take(src.len() as int) =~= src);
        out
    }

    /// Submission `submission_id` with its categories and members resolved.
    pub fn get_submission_by_id(&self, submission_id: SubmissionId) -> (found: Option<SubmissionJson>)
        requires
            self.members_distinct(),
        ensures
            match found {
                Some(json) => self.submission_json(submission_id) == Some(json@),
                None => self.submission_json(submission_id).is_none(),
            },
    {
        if submission_id < self.submissions.len() as u64 {
            let s = &self.submissions[submission_id as usize];
            Some(
                SubmissionJson {
                    id: s.id,
                    categories: self.records_of_categories(&s.categories),
                    members: self.profiles_of(&s.members),
                    name: s.name.clone(),
                    link: copy_texts(&s.link),
                    image: s.image.clone(),
                    description: s.description.clone(),
                    time: s.time,
                },
            )
        } else {
            None
        }
    }

    /// The listed submissions that are stored, resolved, in order.
    pub fn submissions_of(&self, ids: &Vec<SubmissionId>) -> (out: Vec<SubmissionJson>)
        requires
            self.members_distinct(),
        ensures
            submission_json_views(out@) == gather(self.submission_jsons(ids@)),
    {
        let ghost src = self.submission_jsons(ids@);
        let mut out: Vec<SubmissionJson> = Vec::new();
        let mut k: usize = 0;
        while k < ids.len()
            invariant
                self.members_distinct(),
                k <= ids@.len(),
                src == self.submission_jsons(ids@),
                submission_json_views(out@) == gather(src.take(k as int)),
            decreases ids@.len() - k,
        {
            proof {
                lemma_gather_step(src, k as int);
            }
            match self.get_submission_by_id(ids[k]) {
                Some(json) => {
                    let ghost before = out@;
                    out.push(json);
                    assert(submission_json_views(out@) =~= submission_json_views(before).push(json@));
                },
                None => {},
            }
            k += 1;
        }
        assert(src.take(src.len() as int) =~= src);
        out
    }

    /// Award `award_id` with its winner resolved.
    pub fn get_award_by_id(&self, award_id: AwardId) -> (found: Option<AwardJson>)
        requires
            self.members_distinct(),
        ensures
            match found {
                Some(json) => self.award_json(award_id) == Some(json@),
                None => self.award_json(award_id).is_none(),
            },
    {
        if award_id < self.awards.len() as u64 {
            let a = &self.awards[award_id as usize];
            let winner = match a.winner {
                Some(id) => self.get_submission_by_id(id),
                None => None,
            };
            Some(
                AwardJson {
                    name: a.name.clone(),
                    id: a.id,
                    price: a.price,
                    winner,
                    is_awarded: a.is_awarded,
                },
            )
        } else {
            None
        }
    }

    /// The listed awards that are stored, resolved, in order.
    pub fn awards_of(&self, ids: &Vec<AwardId>) -> (out: Vec<AwardJson>)
        requires
            self.members_distinct(),
        ensures
            award_json_views(out@) == gather(self.award_jsons(ids@)),
    {
        let ghost src = self.award_jsons(ids@);
        let mut out: Vec<AwardJson> = Vec::new();
        let mut k: usize = 0;
        while k < ids.len()
            invariant
                self.members_distinct(),
                k <= ids@.len(),
                src == self.award_jsons(ids@),
                award_json_views(out@) == gather(src.take(k as int)),
            decreases ids@.len() - k,
        {
            proof {
                lemma_gather_step(src, k as int);
            }
            match self.get_award_by_id(ids[k]) {
                Some(json) => {
                    let ghost before = out@;
                    out.push(json);
                    assert(award_json_views(out@) =~= award_json_views(before).push(json@));
                },
                None => {},
            }
            k += 1;
        }
        assert(src.take(src.len() as int) =~= src);
        out
    }

    /// Category `category_id` with its awards resolved.
    pub fn get_category_by_id(&self, category_id: CategoryId) -> (found: Option<CategoryJson>)
        requires
            self.members_distinct(),
        ensures
            match found {
                Some(json) => self.category_json(category_id) == Some(json@),
                None => self.category_json(category_id).is_none(),
            },
    {
        if category_id < self.categories.len() as u64 {
            let c = &self.categories[category_id as usize];
            Some(CategoryJson { name: c.name.clone(), id: c.id, awards: self.awards_of(&c.awards) })
        } else {
            None
        }
    }

    /// The listed categories that are stored, resolved, in order.
    pub fn categories_of(&self, ids: &Vec<CategoryId>) -> (out: Vec<CategoryJson>)
        requires
            self.members_distinct(),
        ensures
            category_json_views(out@) == gather(self.category_jsons(ids@)),
    {
        let ghost src = self.category_jsons(ids@);
        let mut out: Vec<CategoryJson> = Vec::new();
        let mut k: usize = 0;
        while k < ids.len()
            invariant
                self.members_distinct(),
                k <= ids@.len(),
                src == self.category_jsons(ids@),
                category_json_views(out@) == gather(src.take(k as int)),
            decreases ids@.len() - k,
        {
            proof {
                lemma_gather_step(src, k as int);
            }
            match self.get_category_by_id(ids[k]) {
                Some(json) => {
                    let ghost before = out@;
                    out.push(json);
                    assert(category_json_views(out@) =~= category_json_views(before).push(json@));
                },
                None => {},
            }
            k += 1;
        }
        assert(src.take(src.len() as int) =~= src);
        out
    }

    /// The nested detail of a hackathon: `NotFound` where it is not stored.
    pub fn get_detail_hackathon_by_id(&self, hackathon_id: HackathonId) -> (result: Result<
        HackathonJson,
        LedgerError,
    >)
        requires
            self.members_distinct(),
        ensures
            match result {
                Ok(json) => hackathon_id < self.hackathons@.len() && json@ == self.hackathon_json(
                    hackathon_id,
                ),
                Err(e) => hackathon_id >= self.hackathons@.len() && e == LedgerError::NotFound,
            },
    {
        if hackathon_id >= self.hackathons.len() as u64 {
            return Err(LedgerError::NotFound);
        }
        let hackathon = &self.hackathons[hackathon_id as usize];
        Ok(
            HackathonJson {
                participants: self.profiles_of(&hackathon.participants_list),
                submissions: self.submissions_of(&hackathon.submissions_list),
                categories: self.categories_of(&hackathon.categories_list),
            },
        )
    }

    /// The listed hackathons that are stored, each with its total prize, in order.
    pub fn hackathons_with_totals(&self, ids: &Vec<HackathonId>) -> (out: Vec<HackathonWithTotalPrize>)
        requires
            self.totals_fit(),
        ensures
            with_total_views(out@) == gather(self.with_totals(ids@)),
    {
        let ghost src = self.with_totals(ids@);
        let mut out: Vec<HackathonWithTotalPrize> = Vec::new();
        let mut k: usize = 0;
        while k < ids.len()
            invariant
                self.totals_fit(),
                k <= ids@.len(),
                src == self.with_totals(ids@),
                with_total_views(out@) == gather(src.take(k as int)),
            decreases ids@.len() - k,
        {
            proof {
                lemma_gather_step(src, k as int);
            }
            let id: u64 = ids[k];
            if id < self.hackathons.len() as u64 {
                let ghost before = out@;
                let hackathon = self.hackathons[id as usize].copy();
                let total_prize = self.get_total_prize(&self.hackathons[id as usize]);
                let item = HackathonWithTotalPrize { hackathon, total_prize };
                out.push(item);
                assert(with_total_views(out@) =~= with_total_views(before).push(item@));
            }
            k += 1;
        }
        assert(src.take(src.len() as int) =~= src);
        out
    }

    /// Every hackathon with its total prize, in order of identifier.
    pub fn get_all_hackathons(&self) -> (out: Vec<Option<HackathonWithTotalPrize>>)
        requires
            self.totals_fit(),
        ensures
            out@.len() == self.hackathons@.len(),
            forall|i: int|
                0 <= i < out@.len() ==> (#[trigger] out@[i]).is_some() && Some(out@[i].unwrap()@)
                    == self.with_total(i as u64),
    {
        let mut out: Vec<Option<HackathonWithTotalPrize>> = Vec::new();
        let mut k: usize = 0;
        while k < self.hackathons.len()
            invariant
                self.totals_fit(),
                k <= self.hackathons@.len(),
                out@.len() == k,
                forall|i: int|
                    0 <= i < out@.len() ==> (#[trigger] out@[i]).is_some() && Some(out@[i].unwrap()@)
                        == self.with_total(i as u64),
            decreases self.hackathons@.len() - k,
        {
            let hackathon = self.hackathons[k].copy();
            let total_prize = self.get_total_prize(&self.hackathons[k]);
            out.push(Some(HackathonWithTotalPrize { hackathon, total_prize }));
            k += 1;
        }
        out
    }

    /// The profile of `id` with the hackathons created and joined, each with
    /// its total prize; `None` where `id` is no member.
    pub fn get_user_information_by_id(&self, id: &AccountId) -> (found: Option<MemberJsonDetail>)
        requires
            self.members_distinct(),
            self.totals_fit(),
        ensures
            match found {
                Some(detail) => self.user_detail(id@) == Some(detail@),
                None => self.user_detail(id@).is_none(),
            },
    {
        match self.find_member(id) {
            Some(i) => {
                let user = &self.members[i];
                let created = self.hackathons_with_totals(&user.created_hackathons);
                let joined = self.hackathons_with_totals(&user.joined_hackathons);
                Some(
                    MemberJsonDetail {
                        id: user.id.clone(),
                        name: user.name.clone(),
                        image: copy_opt_text(&user.image),
                        bio: copy_opt_text(&user.bio),
                        joined_hackathons: joined,
                        created_hackathons: created,
                    },
                )
            },
            None => None,
        }
    }
}

} // verus!
