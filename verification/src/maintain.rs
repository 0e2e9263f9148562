use vstd::prelude::*;
use crate::award::{Award, AwardId};
use crate::category::{Category, CategoryId, CategoryView};
use crate::contract::{ids_below, names_distinct, HackathonContract};
use crate::error::LedgerError;
use crate::hackathon::{HackathonId, HackathonView};
use crate::member::{AccountId, Member, MemberJson, MemberView};
use crate::submission::{Submission, SubmissionId, Timestamp};
use crate::text::{contains_id, names_contain};

verus! {

impl HackathonContract {
    /// Why `add_category` refuses, if it does.
    pub open spec fn add_category_guard(&self, caller: Seq<char>, hackathon_id: HackathonId) -> Option<
        LedgerError,
    > {
        if hackathon_id >= self.hackathons@.len() {
            Some(LedgerError::NotFound)
        } else if self.hackathons@[hackathon_id as int].owner@ != caller {
            Some(LedgerError::Unauthorized)
        } else {
            None
        }
    }

    /// Creates a category in a hackathon that the caller owns, and appends its
    /// identifier to the hackathon's category list.
    pub fn add_category(&mut self, caller: &AccountId, hackathon_id: HackathonId, name: String) -> (result:
        Result<CategoryId, LedgerError>)
        requires
            old(self).wf(),
            old(self).categories@.len() < u64::MAX,
        ensures
            final(self).wf(),
            final(self).evolves_from(old(self)),
            match old(self).add_category_guard(caller@, hackathon_id) {
                Some(e) => result == Err::<CategoryId, LedgerError>(e) && *final(self) == *old(self),
                None => {
                    &&& result == Ok::<CategoryId, LedgerError>(old(self).next_category_id)
                    &&& final(self).next_category_id == old(self).next_category_id + 1
                    &&& final(self).categories@.len() == old(self).categories@.len() + 1
                    &&& final(self).categories@.take(old(self).categories@.len() as int) == old(
                        self,
                    ).categories@
                    &&& final(self).categories@.last()@ == (CategoryView {
                        id: old(self).next_category_id,
                        name,
                        awards: Seq::empty(),
                    })
                    &&& final(self).hackathons@.len() == old(self).hackathons@.len()
                    &&& forall|j: int|
                        0 <= j < old(self).hackathons@.len() && j != hackathon_id ==> (
                        #[trigger] final(self).hackathons@[j]) == old(self).hackathons@[j]
                    &&& final(self).hackathons@[hackathon_id as int].categories_list@.contains(
                        old(self).next_category_id,
                    )
                    &&& final(self).hackathons@[hackathon_id as int]@ == (HackathonView {
                        categories_list: old(self).hackathons@[hackathon_id as int].categories_list@.push(
                            old(self).next_category_id,
                        ),
                        ..old(self).hackathons@[hackathon_id as int]@
                    })
                    &&& final(self).members@ == old(self).members@
                    &&& final(self).awards@ == old(self).awards@
                    &&& final(self).submissions@ == old(self).submissions@
                    &&& final(self).next_hackathon_id == old(self).next_hackathon_id
                    &&& final(self).next_award_id == old(self).next_award_id
                    &&& final(self).next_submission_id == old(self).next_submission_id
                },
            },
    {
        if hackathon_id >= self.hackathons.len() as u64 {
            return Err(LedgerError::NotFound);
        }
        let h: usize = hackathon_id as usize;
        if !Self::is_owner(&self.hackathons[h], caller) {
            return Err(LedgerError::Unauthorized);
        }
        let category_id = self.next_category_id;
        let category = Category::new(category_id, name);
        self.categories.push(category);
        self.hackathons[h].categories_list.push(category_id);
        self.next_category_id = category_id + 1;
        proof {
            let list = self.hackathons@[h as int].categories_list@;
            assert(list[list.len() - 1] == category_id);
            assert(self.categories@.take(category_id as int) =~= old(self).categories@);
            assert(ids_below(self.categories@[category_id as int].awards@, self.awards@.len() as int));
            assert forall|i: int| 0 <= i < self.hackathons@.len() implies ids_below(
                (#[trigger] self.hackathons@[i]).categories_list@,
                self.categories@.len() as int,
            ) by {
                assert(ids_below(
                    old(self).hackathons@[i].categories_list@,
                    old(self).categories@.len() as int,
                ));
            }
        }
        Ok(category_id)
    }

    /// Why `add_award` refuses, if it does.
    pub open spec fn add_award_guard(
        &self,
        caller: Seq<char>,
        hackathon_id: HackathonId,
        category_id: CategoryId,
    ) -> Option<LedgerError> {
        if hackathon_id >= self.hackathons@.len() {
            Some(LedgerError::NotFound)
        } else if self.hackathons@[hackathon_id as int].owner@ != caller {
            Some(LedgerError::Unauthorized)
        } else if category_id >= self.categories@.len() {
            Some(LedgerError::NotFound)
        } else if !self.hackathons@[hackathon_id as int].categories_list@.contains(category_id) {
            Some(LedgerError::InvalidInput)
        } else {
            None
        }
    }

    /// Creates an open award worth `price` in a category of a hackathon that
    /// the caller owns, and appends its identifier to the category's award
    /// list. A category that the hackathon does not list is refused.
    pub fn add_award(
        &mut self,
        caller: &AccountId,
        hackathon_id: HackathonId,
        category_id: CategoryId,
        name: String,
        price: u128,
    ) -> (result: Result<AwardId, LedgerError>)
        requires
            old(self).wf(),
            old(self).awards@.len() < u64::MAX,
        ensures
            final(self).wf(),
            final(self).evolves_from(old(self)),
            match old(self).add_award_guard(caller@, hackathon_id, category_id) {
                Some(e) => result == Err::<AwardId, LedgerError>(e) && *final(self) == *old(self),
                None => {
                    &&& result == Ok::<AwardId, LedgerError>(old(self).next_award_id)
                    &&& final(self).next_award_id == old(self).next_award_id + 1
                    &&& final(self).awards@ == old(self).awards@.push(
                        Award {
                            id: old(self).next_award_id,
                            name,
                            price,
                            winner: None,
                            is_awarded: false,
                        },
                    )
                    &&& final(self).categories@.len() == old(self).categories@.len()
                    &&& forall|j: int|
                        0 <= j < old(self).categories@.len() && j != category_id ==> (
                        #[trigger] final(self).categories@[j]) == old(self).categories@[j]
                    &&& final(self).categories@[category_id as int].awards@.contains(
                        old(self).next_award_id,
                    )
                    &&& final(self).categories@[category_id as int]@ == (CategoryView {
                        awards: old(self).categories@[category_id as int].awards@.push(
                            old(self).next_award_id,
                        ),
                        ..old(self).categories@[category_id as int]@
                    })
                    &&& final(self).members@ == old(self).members@
                    &&& final(self).hackathons@ == old(self).hackathons@
                    &&& final(self).submissions@ == old(self).submissions@
                    &&& final(self).next_hackathon_id == old(self).next_hackathon_id
                    &&& final(self).next_category_id == old(self).next_category_id
                    &&& final(self).next_submission_id == old(self).next_submission_id
                },
            },
    {
        if hackathon_id >= self.hackathons.len() as u64 {
            return Err(LedgerError::NotFound);
        }
        if !Self::is_owner(&self.hackathons[hackathon_id as usize], caller) {
            return Err(LedgerError::Unauthorized);
        }
        if category_id >= self.categories.len() as u64 {
            return Err(LedgerError::NotFound);
        }
        if !contains_id(&self.hackathons[hackathon_id as usize].categories_list, category_id) {
            return Err(LedgerError::InvalidInput);
        }
        let award_id = self.next_award_id;
        let award = Award::new(award_id, name, price);
        self.awards.push(award);
        self.categories[category_id as usize].awards.push(award_id);
        self.next_award_id = award_id + 1;
        proof {
            let list = self.categories@[category_id as int].awards@;
            assert(list[list.len() - 1] == award_id);
            assert forall|i: int| 0 <= i < self.categories@.len() implies ids_below(
                (#[trigger] self.categories@[i]).awards@,
                self.awards@.len() as int,
            ) by {
                assert(ids_below(old(self).categories@[i].awards@, old(self).awards@.len() as int));
            }
        }
        Ok(award_id)
    }

    /// Why `join_hackathon` refuses, if it does.
    pub open spec fn join_guard(&self, caller: Seq<char>, hackathon_id: HackathonId) -> Option<
        LedgerError,
    > {
        if !self.is_member_spec(caller) {
            Some(LedgerError::Unauthorized)
        } else if hackathon_id >= self.hackathons@.len() {
            Some(LedgerError::NotFound)
        } else if self.hackathons@[hackathon_id as int].owner@ == caller {
            Some(LedgerError::Unauthorized)
        } else if names_contain(self.hackathons@[hackathon_id as int].participants_list@, caller) {
            Some(LedgerError::InvalidState)
        } else {
            None
        }
    }

    /// Makes the caller, a member who is neither the owner nor yet a
    /// participant, a participant of the hackathon.
    pub fn join_hackathon(&mut self, caller: AccountId, hackathon_id: HackathonId) -> (result: Result<
        (),
        LedgerError,
    >)
        requires
            old(self).wf(),
        ensures
            final(self).wf(),
            final(self).evolves_from(old(self)),
            match old(self).join_guard(caller@, hackathon_id) {
                Some(e) => result == Err::<(), LedgerError>(e) && *final(self) == *old(self),
                None => {
                    &&& result.is_ok()
                    &&& final(self).hackathons@.len() == old(self).hackathons@.len()
                    &&& forall|j: int|
                        0 <= j < old(self).hackathons@.len() && j != hackathon_id ==> (
                        #[trigger] final(self).hackathons@[j]) == old(self).hackathons@[j]
                    &&& final(self).hackathons@[hackathon_id as int]@ == (HackathonView {
                        participants_list: old(self).hackathons@[hackathon_id as int].participants_list@.push(
                            caller,
                        ),
                        ..old(self).hackathons@[hackathon_id as int]@
                    })
                    &&& final(self).members@.len() == old(self).members@.len()
                    &&& forall|i: int|
                        0 <= i < old(self).members@.len() ==> (#[trigger] final(self).members@[i])@ == (
                        if old(self).members@[i].id@ == caller@ {
                            MemberView {
                                joined_hackathons: old(self).members@[i].joined_hackathons@.push(
                                    hackathon_id,
                                ),
                                ..old(self).members@[i]@
                            }
                        } else {
                            old(self).members@[i]@
                        })
                    &&& final(self).categories@ == old(self).categories@
                    &&& final(self).awards@ == old(self).awards@
                    &&& final(self).submissions@ == old(self).submissions@
                    &&& final(self).next_hackathon_id == old(self).next_hackathon_id
                    &&& final(self).next_category_id == old(self).next_category_id
                    &&& final(self).next_award_id == old(self).next_award_id
                    &&& final(self).next_submission_id == old(self).next_submission_id
                },
            },
    {
        let joiner = match self.find_member(&caller) {
            Some(i) => i,
            None => {
                return Err(LedgerError::Unauthorized);
            },
        };
        if hackathon_id >= self.hackathons.len() as u64 {
            return Err(LedgerError::NotFound);
        }
        let h: usize = hackathon_id as usize;
        if !Self::not_self(&self.hackathons[h], &caller) {
            return Err(LedgerError::Unauthorized);
        }
        if Self::is_participant(&self.hackathons[h], &caller) {
            return Err(LedgerError::InvalidState);
        }
        let ghost before = self.hackathons@[h as int].participants_list@;
        self.hackathons[h].participants_list.push(caller);
        self.members[joiner].joined_hackathons.push(hackathon_id);
        proof {
            self.lemma_members_kept(old(self));
            let after = self.hackathons@[h as int].participants_list@;
            assert(after == before.push(caller));
            assert(names_distinct(before));
            assert(names_distinct(after)) by {
                assert forall|i: int, j: int|
                    0 <= i < after.len() && 0 <= j < after.len() && i != j implies (#[trigger] after[i])@
                    != (#[trigger] after[j])@ by {
                    if i < before.len() {
                        assert(after[i] == before[i]);
                    }
                    if j < before.len() {
                        assert(after[j] == before[j]);
                    }
                }
            }
            assert(!names_contain(after, self.hackathons@[h as int].owner@)) by {
                if names_contain(after, self.hackathons@[h as int].owner@) {
                    let k = choose|k: int|
                        0 <= k < after.len() && (#[trigger] after[k])@ == self.hackathons@[h as int].owner@;
                    if k < before.len() {
                        assert(before[k] == after[k]);
                    }
                }
            }
        }
        Ok(())
    }

    /// Why `submit_project` refuses, if it does.
    pub open spec fn submit_guard(&self, hackathon_id: HackathonId, members: Seq<AccountId>) -> Option<
        LedgerError,
    > {
        if hackathon_id >= self.hackathons@.len() {
            Some(LedgerError::NotFound)
        } else if !self.all_eligible(hackathon_id as int, members) {
            Some(LedgerError::InvalidInput)
        } else {
            None
        }
    }

    /// Records a submission whose listed members are all members and
    /// participants of the hackathon, and appends its identifier to the
    /// hackathon's submission list.
    pub fn submit_project(
        &mut self,
        hackathon_id: HackathonId,
        categories: Vec<CategoryId>,
        members: Vec<AccountId>,
        name: String,
        description: String,
        image: String,
        link: Vec<String>,
        time: Timestamp,
    ) -> (result: Result<SubmissionId, LedgerError>)
        requires
            old(self).wf(),
            old(self).submissions@.len() < u64::MAX,
        ensures
            final(self).wf(),
            final(self).evolves_from(old(self)),
            match old(self).submit_guard(hackathon_id, members@) {
                Some(e) => result == Err::<SubmissionId, LedgerError>(e) && *final(self) == *old(self),
                None => {
                    &&& result == Ok::<SubmissionId, LedgerError>(old(self).next_submission_id)
                    &&& final(self).next_submission_id == old(self).next_submission_id + 1
                    &&& final(self).submissions@ == old(self).submissions@.push(
                        Submission {
                            id: old(self).next_submission_id,
                            name,
                            description,
                            image,
                            time,
                            link,
                            categories,
                            members,
                        },
                    )
                    &&& final(self).hackathons@.len() == old(self).hackathons@.len()
                    &&& forall|j: int|
                        0 <= j < old(self).hackathons@.len() && j != hackathon_id ==> (
                        #[trigger] final(self).hackathons@[j]) == old(self).hackathons@[j]
                    &&& final(self).hackathons@[hackathon_id as int].submissions_list@.contains(
                        old(self).next_submission_id,
                    )
                    &&& final(self).hackathons@[hackathon_id as int]@ == (HackathonView {
                        submissions_list: old(self).hackathons@[hackathon_id as int].submissions_list@.push(
                            old(self).next_submission_id,
                        ),
                        ..old(self).hackathons@[hackathon_id as int]@
                    })
                    &&& final(self).members@ == old(self).members@
                    &&& final(self).categories@ == old(self).categories@
                    &&& final(self).awards@ == old(self).awards@
                    &&& final(self).next_hackathon_id == old(self).next_hackathon_id
                    &&& final(self).next_category_id == old(self).next_category_id
                    &&& final(self).next_award_id == old(self).next_award_id
                },
            },
    {
        if hackathon_id >= self.hackathons.len() as u64 {
            return Err(LedgerError::NotFound);
        }
        let h: usize = hackathon_id as usize;
        if !self.members_eligible(h, &members) {
            return Err(LedgerError::InvalidInput);
        }
        let submission_id = self.next_submission_id;
        let submission = Submission::new(
            submission_id,
            categories,
            members,
            name,
            description,
            image,
            link,
            time,
        );
        self.submissions.push(submission);
        self.hackathons[h].submissions_list.push(submission_id);
        self.next_submission_id = submission_id + 1;
        proof {
            let list = self.hackathons@[h as int].submissions_list@;
            assert(list[list.len() - 1] == submission_id);
            assert forall|i: int| 0 <= i < self.hackathons@.len() implies ids_below(
                (#[trigger] self.hackathons@[i]).submissions_list@,
                self.submissions@.len() as int,
            ) by {
                assert(ids_below(
                    old(self).hackathons@[i].submissions_list@,
                    old(self).submissions@.len() as int,
                ));
            }
        }
        Ok(submission_id)
    }

    /// Replaces the parts of the caller's profile that are given, and returns
    /// the profile as it then stands.
    pub fn update_member(
        &mut self,
        caller: &AccountId,
        name: Option<String>,
        image: Option<String>,
        bio: Option<String>,
    ) -> (result: Result<MemberJson, LedgerError>)
        requires
            old(self).wf(),
        ensures
            final(self).wf(),
            final(self).evolves_from(old(self)),
            final(self).same_but_members(old(self)),
            final(self).members@.len() == old(self).members@.len(),
            !old(self).is_member_spec(caller@) ==> result == Err::<MemberJson, LedgerError>(
                LedgerError::Unauthorized,
            ) && *final(self) == *old(self),
            old(self).is_member_spec(caller@) ==> result.is_ok(),
            forall|i: int|
                0 <= i < old(self).members@.len() ==> (#[trigger] final(self).members@[i]) == (
                if old(self).members@[i].id@ == caller@ {
                    Member {
                        name: if name is Some { name->0 } else { old(self).members@[i].name },
                        image: if image is Some { image } else { old(self).members@[i].image },
                        bio: if bio is Some { bio } else { old(self).members@[i].bio },
                        ..old(self).members@[i]
                    }
                } else {
                    old(self).members@[i]
                }),
            forall|i: int|
                0 <= i < old(self).members@.len() && (#[trigger] old(self).members@[i]).id@ == caller@
                    ==> result == Ok::<MemberJson, LedgerError>(final(self).members@[i].spec_profile()),
    {
        let i = match self.find_member(caller) {
            Some(i) => i,
            None => {
                return Err(LedgerError::Unauthorized);
            },
        };
        match name {
            Some(n) => {
                self.members[i].name = n;
            },
            None => {},
        }
        match image {
            Some(u) => {
                self.members[i].image = Some(u);
            },
            None => {},
        }
        match bio {
            Some(b) => {
                self.members[i].bio = Some(b);
            },
            None => {},
        }
        proof {
            self.lemma_members_kept(old(self));
        }
        Ok(self.members[i].profile())
    }
}

} // verus!
