use vstd::prelude::*;
use crate::award::{Award, AwardId};
use crate::category::CategoryId;
use crate::contract::{HackathonContract, Payout};
use crate::error::LedgerError;
use crate::hackathon::HackathonId;
use crate::member::AccountId;
use crate::submission::SubmissionId;
use crate::text::contains_id;

verus! {

impl HackathonContract {
    /// Why the caller may not act on the award as owner of the hackathon, if so:
    /// the hackathon does not exist, the caller does not own it, the category
    /// is not one of the hackathon's, or the award is not one of the category's.
    pub open spec fn award_access_guard(
        &self,
        caller: Seq<char>,
        hackathon_id: HackathonId,
        category_id: CategoryId,
        award_id: AwardId,
    ) -> Option<LedgerError> {
        if hackathon_id >= self.hackathons@.len() {
            Some(LedgerError::NotFound)
        } else if self.hackathons@[hackathon_id as int].owner@ != caller {
            Some(LedgerError::Unauthorized)
        } else if !self.hackathons@[hackathon_id as int].categories_list@.contains(category_id) {
            Some(LedgerError::InvalidInput)
        } else if !self.categories@[category_id as int].awards@.contains(award_id) {
            Some(LedgerError::InvalidInput)
        } else {
            None
        }
    }

    /// Decides `award_access_guard`. Without an error the three identifiers
    /// resolve to records.
    pub fn check_award_access(
        &self,
        caller: &AccountId,
        hackathon_id: HackathonId,
        category_id: CategoryId,
        award_id: AwardId,
    ) -> (refusal: Option<LedgerError>)
        requires
            self.wf(),
        ensures
            refusal == self.award_access_guard(caller@, hackathon_id, category_id, award_id),
            refusal.is_none() ==> hackathon_id < self.hackathons.len() && category_id
                < self.categories.len() && award_id < self.awards.len(),
    {
        if hackathon_id >= self.hackathons.len() as u64 {
            return Some(LedgerError::NotFound);
        }
        let hackathon = &self.hackathons[hackathon_id as usize];
        if !Self::is_owner(hackathon, caller) {
            return Some(LedgerError::Unauthorized);
        }
        if !contains_id(&hackathon.categories_list, category_id) {
            return Some(LedgerError::InvalidInput);
        }
        assert(category_id < self.categories.len()) by {
            let k = choose|k: int|
                0 <= k < hackathon.categories_list@.len() && hackathon.categories_list@[k] == category_id;
            assert(hackathon.categories_list@[k] < self.categories@.len());
            assert(self.categories@.len() == self.categories.len());
        }
        let category = &self.categories[category_id as usize];
        if !contains_id(&category.awards, award_id) {
            return Some(LedgerError::InvalidInput);
        }
        assert(award_id < self.awards.len()) by {
            let k = choose|k: int| 0 <= k < category.awards@.len() && category.awards@[k] == award_id;
            assert(category.awards@[k] < self.awards@.len());
            assert(self.awards@.len() == self.awards.len());
        }
        None
    }

    /// Why `judge_winner` refuses, if it does.
    pub open spec fn judge_guard(
        &self,
        caller: Seq<char>,
        hackathon_id: HackathonId,
        category_id: CategoryId,
        award_id: AwardId,
        submission_id: SubmissionId,
    ) -> Option<LedgerError> {
        let access = self.award_access_guard(caller, hackathon_id, category_id, award_id);
        if access.is_some() {
            access
        } else if self.awards@[award_id as int].winner.is_some() {
            Some(LedgerError::InvalidState)
        } else if submission_id >= self.submissions@.len() {
            Some(LedgerError::NotFound)
        } else if !self.all_eligible(hackathon_id as int, self.submissions@[submission_id as int].members@) {
            Some(LedgerError::InvalidInput)
        } else {
            None
        }
    }

    /// Judges an open award: records the submission as its winner.
    pub fn judge_winner(
        &mut self,
        caller: &AccountId,
        hackathon_id: HackathonId,
        category_id: CategoryId,
        award_id: AwardId,
        submission_id: SubmissionId,
    ) -> (result: Result<(), LedgerError>)
        requires
            old(self).wf(),
        ensures
            final(self).wf(),
            final(self).evolves_from(old(self)),
            match old(self).judge_guard(caller@, hackathon_id, category_id, award_id, submission_id) {
                Some(e) => result == Err::<(), LedgerError>(e) && *final(self) == *old(self),
                None => {
                    &&& result.is_ok()
                    &&& final(self).awards@ == old(self).awards@.update(
                        award_id as int,
                        Award { winner: Some(submission_id), ..old(self).awards@[award_id as int] },
                    )
                    &&& final(self).members@ == old(self).members@
                    &&& final(self).same_but_members(
                        &HackathonContract { awards: final(self).awards, ..*old(self) },
                    )
                },
            },
    {
        match self.check_award_access(caller, hackathon_id, category_id, award_id) {
            Some(e) => {
                return Err(e);
            },
            None => {},
        }
        let a: usize = award_id as usize;
        if self.awards[a].winner.is_some() {
            return Err(LedgerError::InvalidState);
        }
        if submission_id >= self.submissions.len() as u64 {
            return Err(LedgerError::NotFound);
        }
        if !self.members_eligible(hackathon_id as usize, &self.submissions[submission_id as usize].members) {
            return Err(LedgerError::InvalidInput);
        }
        self.awards[a].winner = Some(submission_id);
        assert(self.awards@ =~= old(self).awards@.update(
            award_id as int,
            Award { winner: Some(submission_id), ..old(self).awards@[award_id as int] },
        ));
        Ok(())
    }

    /// Why `award_winner` refuses, if it does.
    pub open spec fn pay_guard(
        &self,
        caller: Seq<char>,
        hackathon_id: HackathonId,
        category_id: CategoryId,
        award_id: AwardId,
        attached: u128,
    ) -> Option<LedgerError> {
        let access = self.award_access_guard(caller, hackathon_id, category_id, award_id);
        if access.is_some() {
            access
        } else if self.awards@[award_id as int].is_awarded {
            Some(LedgerError::InvalidState)
        } else if attached != self.awards@[award_id as int].price {
            Some(LedgerError::PaymentMismatch)
        } else if self.awards@[award_id as int].winner.is_none() {
            Some(LedgerError::InvalidState)
        } else if self.submissions@[self.awards@[award_id as int].winner.unwrap() as int].members@.len()
            == 0 {
            Some(LedgerError::InvalidState)
        } else {
            None
        }
    }

    /// The transfer that paying the award asks for: the prize, to the first
    /// member of the winning submission.
    pub open spec fn payout_of(&self, award_id: AwardId) -> Payout
        recommends
            award_id < self.awards@.len(),
            self.awards@[award_id as int].winner.is_some(),
    {
        let award = self.awards@[award_id as int];
        Payout { recipient: self.submissions@[award.winner.unwrap() as int].members@[0], amount: award.price }
    }

    /// Decides a payment without making it: the transfer that `award_winner`
    /// would return on the same arguments, or the error with which it would
    /// refuse. A host whose transfer can fail asks here first, transfers, and
    /// calls `award_winner` only once the transfer has succeeded.
    pub fn payout_for(
        &self,
        caller: &AccountId,
        hackathon_id: HackathonId,
        category_id: CategoryId,
        award_id: AwardId,
        attached: u128,
    ) -> (result: Result<Payout, LedgerError>)
        requires
            self.wf(),
        ensures
            match self.pay_guard(caller@, hackathon_id, category_id, award_id, attached) {
                Some(e) => result == Err::<Payout, LedgerError>(e),
                None => result == Ok::<Payout, LedgerError>(self.payout_of(award_id)) && award_id
                    < self.awards.len(),
            },
    {
        match self.check_award_access(caller, hackathon_id, category_id, award_id) {
            Some(e) => {
                return Err(e);
            },
            None => {},
        }
        let award = &self.awards[award_id as usize];
        if award.is_awarded {
            return Err(LedgerError::InvalidState);
        }
        if attached != award.price {
            return Err(LedgerError::PaymentMismatch);
        }
        let winner: SubmissionId = match award.winner {
            Some(s) => s,
            None => {
                return Err(LedgerError::InvalidState);
            },
        };
        assert(winner < self.submissions.len()) by {
            assert(self.submissions@.len() == self.submissions.len());
        }
        let submission = &self.submissions[winner as usize];
        if submission.members.len() == 0 {
            return Err(LedgerError::InvalidState);
        }
        Ok(Payout { recipient: submission.members[0].clone(), amount: award.price })
    }

    /// Pays a judged award: marks it as paid and returns the transfer of the
    /// prize to the first member of the winning submission. `attached` is the
    /// value that came with the call and must equal the prize.
    pub fn award_winner(
        &mut self,
        caller: &AccountId,
        hackathon_id: HackathonId,
        category_id: CategoryId,
        award_id: AwardId,
        attached: u128,
    ) -> (result: Result<Payout, LedgerError>)
        requires
            old(self).wf(),
        ensures
            final(self).wf(),
            final(self).evolves_from(old(self)),
            match old(self).pay_guard(caller@, hackathon_id, category_id, award_id, attached) {
                Some(e) => result == Err::<Payout, LedgerError>(e) && *final(self) == *old(self),
                None => {
                    &&& result == Ok::<Payout, LedgerError>(old(self).payout_of(award_id))
                    &&& final(self).awards@ == old(self).awards@.update(
                        award_id as int,
                        Award { is_awarded: true, ..old(self).awards@[award_id as int] },
                    )
                    &&& final(self).members@ == old(self).members@
                    &&& final(self).same_but_members(
                        &HackathonContract { awards: final(self).awards, ..*old(self) },
                    )
                },
            },
    {
        let payout = match self.payout_for(caller, hackathon_id, category_id, award_id, attached) {
            Ok(payout) => payout,
            Err(e) => {
                return Err(e);
            },
        };
        self.awards[award_id as usize].is_awarded = true;
        assert(self.awards@ =~= old(self).awards@.update(
            award_id as int,
            Award { is_awarded: true, ..old(self).awards@[award_id as int] },
        ));
        Ok(payout)
    }
}

} // verus!
