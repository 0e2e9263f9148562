use vstd::prelude::*;
use crate::award::{Award, AwardId};
use crate::category::{Category, CategoryId};
use crate::error::LedgerError;
use crate::hackathon::{Hackathon, HackathonId, HackathonPayload, HackathonView};
use crate::member::{AccountId, Member, MemberView};
use crate::submission::{Submission, SubmissionId};
use crate::text::{contains_name, names_contain};

verus! {

/// The whole ledger. Hackathons, categories, awards and submissions are never
/// deleted and get consecutive identifiers from zero, so each collection is
/// indexed by identifier; members are kept in registration order.
pub struct HackathonContract {
    pub members: Vec<Member>,
    pub hackathons: Vec<Hackathon>,
    pub categories: Vec<Category>,
    pub awards: Vec<Award>,
    pub submissions: Vec<Submission>,
    pub next_submission_id: SubmissionId,
    pub next_category_id: CategoryId,
    pub next_award_id: AwardId,
    pub next_hackathon_id: HackathonId,
}

/// The value transfer that a successful payment asks the host to perform.
pub struct Payout {
    pub recipient: AccountId,
    pub amount: u128,
}

/// Every identifier of `ids` is below `bound`.
pub open spec fn ids_below(ids: Seq<u64>, bound: int) -> bool {
    forall|k: int| 0 <= k < ids.len() ==> (#[trigger] ids[k]) < bound
}

/// No two names of `names` have the same content.
pub open spec fn names_distinct(names: Seq<String>) -> bool {
    forall|i: int, j: int|
        0 <= i < names.len() && 0 <= j < names.len() && i != j ==> (#[trigger] names[i])@ != (
        #[trigger] names[j])@
}

impl HackathonContract {
    /// `who` has a member record.
    pub open spec fn is_member_spec(&self, who: Seq<char>) -> bool {
        exists|i: int| 0 <= i < self.members@.len() && (#[trigger] self.members@[i]).id@ == who
    }

    /// `who` is a member and a participant of hackathon `h`.
    pub open spec fn eligible(&self, h: int, who: Seq<char>) -> bool {
        self.is_member_spec(who) && names_contain(self.hackathons@[h].participants_list@, who)
    }

    /// Every name of `names` is eligible for hackathon `h`.
    pub open spec fn all_eligible(&self, h: int, names: Seq<String>) -> bool {
        forall|k: int| 0 <= k < names.len() ==> self.eligible(h, (#[trigger] names[k])@)
    }

    /// No two member records have the same identity.
    pub open spec fn members_distinct(&self) -> bool {
        forall|i: int, j: int|
            0 <= i < self.members@.len() && 0 <= j < self.members@.len() && i != j ==> (
            #[trigger] self.members@[i]).id@ != (#[trigger] self.members@[j]).id@
    }

    /// Each counter is the number of records of its kind, and each record sits
    /// at the index that is its identifier.
    pub open spec fn ids_wf(&self) -> bool {
        &&& self.next_hackathon_id == self.hackathons@.len()
        &&& self.next_category_id == self.categories@.len()
        &&& self.next_award_id == self.awards@.len()
        &&& self.next_submission_id == self.submissions@.len()
        &&& forall|i: int| 0 <= i < self.hackathons@.len() ==> (#[trigger] self.hackathons@[i]).id == i
        &&& forall|i: int| 0 <= i < self.categories@.len() ==> (#[trigger] self.categories@[i]).id == i
        &&& forall|i: int| 0 <= i < self.awards@.len() ==> (#[trigger] self.awards@[i]).id == i
        &&& forall|i: int| 0 <= i < self.submissions@.len() ==> (#[trigger] self.submissions@[i]).id == i
    }

    /// Every stored reference resolves to a record.
    pub open spec fn refs_wf(&self) -> bool {
        &&& forall|i: int|
            0 <= i < self.members@.len() ==> ids_below(
                (#[trigger] self.members@[i]).joined_hackathons@,
                self.hackathons@.len() as int,
            )
        &&& forall|i: int|
            0 <= i < self.members@.len() ==> ids_below(
                (#[trigger] self.members@[i]).created_hackathons@,
                self.hackathons@.len() as int,
            )
        &&& forall|i: int|
            0 <= i < self.hackathons@.len() ==> ids_below(
                (#[trigger] self.hackathons@[i]).categories_list@,
                self.categories@.len() as int,
            )
        &&& forall|i: int|
            0 <= i < self.hackathons@.len() ==> ids_below(
                (#[trigger] self.hackathons@[i]).submissions_list@,
                self.submissions@.len() as int,
            )
        &&& forall|i: int|
            0 <= i < self.categories@.len() ==> ids_below(
                (#[trigger] self.categories@[i]).awards@,
                self.awards@.len() as int,
            )
        &&& forall|i: int|
            0 <= i < self.awards@.len() ==> ((#[trigger] self.awards@[i]).winner matches Some(s)
                ==> s < self.submissions@.len())
    }

    /// Members are keyed by identity; owners, participants and everyone listed
    /// by a submission are members; an owner never participates in their own
    /// hackathon and nobody participates twice; no award is paid without a winner.
    pub open spec fn roles_wf(&self) -> bool {
        &&& self.members_distinct()
        &&& forall|i: int|
            0 <= i < self.hackathons@.len() ==> self.is_member_spec(
                (#[trigger] self.hackathons@[i]).owner@,
            )
        &&& forall|i: int, k: int|
            0 <= i < self.hackathons@.len() && 0 <= k < self.hackathons@[i].participants_list@.len()
                ==> self.is_member_spec((#[trigger] self.hackathons@[i].participants_list@[k])@)
        &&& forall|s: int, k: int|
            0 <= s < self.submissions@.len() && 0 <= k < self.submissions@[s].members@.len()
                ==> self.is_member_spec((#[trigger] self.submissions@[s].members@[k])@)
        &&& forall|i: int|
            0 <= i < self.hackathons@.len() ==> !names_contain(
                (#[trigger] self.hackathons@[i]).participants_list@,
                self.hackathons@[i].owner@,
            )
        &&& forall|i: int|
            0 <= i < self.hackathons@.len() ==> names_distinct(
                (#[trigger] self.hackathons@[i]).participants_list@,
            )
        &&& forall|i: int| 0 <= i < self.awards@.len() ==> (#[trigger] self.awards@[i]).wf()
    }

    /// The ledger's invariant.
    pub open spec fn wf(&self) -> bool {
        self.ids_wf() && self.refs_wf() && self.roles_wf()
    }

    /// What every operation preserves of an earlier state `before`: no counter
    /// goes back; no member is lost; no hackathon changes its owner; the lists
    /// of participants, submissions, categories and awards only grow at their
    /// end; submissions stay as they were made; no award disappears or changes
    /// its prize, a winner once set stays, and a paid award stays paid.
    pub open spec fn evolves_from(&self, before: &Self) -> bool {
        &&& before.next_hackathon_id <= self.next_hackathon_id
        &&& before.next_category_id <= self.next_category_id
        &&& before.next_award_id <= self.next_award_id
        &&& before.next_submission_id <= self.next_submission_id
        &&& forall|who: Seq<char>| #[trigger] before.is_member_spec(who) ==> self.is_member_spec(who)
        &&& before.hackathons@.len() <= self.hackathons@.len()
        &&& forall|i: int|
            0 <= i < before.hackathons@.len() ==> {
                let a = #[trigger] before.hackathons@[i];
                let b = self.hackathons@[i];
                &&& b.owner == a.owner
                &&& a.participants_list@.is_prefix_of(b.participants_list@)
                &&& a.submissions_list@.is_prefix_of(b.submissions_list@)
                &&& a.categories_list@.is_prefix_of(b.categories_list@)
            }
        &&& before.categories@.len() <= self.categories@.len()
        &&& forall|i: int|
            0 <= i < before.categories@.len() ==> (#[trigger] before.categories@[i]).awards@.is_prefix_of(
                self.categories@[i].awards@,
            )
        &&& before.submissions@.is_prefix_of(self.submissions@)
        &&& before.awards@.len() <= self.awards@.len()
        &&& forall|i: int|
            0 <= i < before.awards@.len() ==> {
                let a = #[trigger] before.awards@[i];
                let b = self.awards@[i];
                &&& b.id == a.id
                &&& b.price == a.price
                &&& a.winner.is_some() ==> b.winner == a.winner
                &&& a.is_awarded ==> b.is_awarded
            }
    }

    /// All records but the members are as in `before`.
    pub open spec fn same_but_members(&self, before: &Self) -> bool {
        &&& self.hackathons@ == before.hackathons@
        &&& self.categories@ == before.categories@
        &&& self.awards@ == before.awards@
        &&& self.submissions@ == before.submissions@
        &&& self.next_hackathon_id == before.next_hackathon_id
        &&& self.next_category_id == before.next_category_id
        &&& self.next_award_id == before.next_award_id
        &&& self.next_submission_id == before.next_submission_id
    }

    /// No member is lost where every record keeps its identity.
    pub proof fn lemma_members_kept(&self, before: &Self)
        requires
            before.members@.len() <= self.members@.len(),
            forall|i: int|
                0 <= i < before.members@.len() ==> (#[trigger] self.members@[i]).id@
                    == before.members@[i].id@,
        ensures
            forall|who: Seq<char>| #[trigger] before.is_member_spec(who) ==> self.is_member_spec(who),
    {
        assert forall|who: Seq<char>| #[trigger] before.is_member_spec(who) implies self.is_member_spec(
            who,
        ) by {
            let i = choose|i: int|
                0 <= i < before.members@.len() && (#[trigger] before.members@[i]).id@ == who;
            assert(self.members@[i].id@ == who);
        }
    }

    /// An empty ledger.
    pub fn init() -> (ledger: Self)
        ensures
            ledger.wf(),
            ledger.members@.len() == 0,
            ledger.hackathons@.len() == 0,
            ledger.categories@.len() == 0,
            ledger.awards@.len() == 0,
            ledger.submissions@.len() == 0,
    {
        HackathonContract {
            members: Vec::new(),
            hackathons: Vec::new(),
            categories: Vec::new(),
            awards: Vec::new(),
            submissions: Vec::new(),
            next_hackathon_id: 0,
            next_submission_id: 0,
            next_category_id: 0,
            next_award_id: 0,
        }
    }

    /// The position of the record of `who`, if `who` is a member.
    pub fn find_member(&self, who: &AccountId) -> (found: Option<usize>)
        ensures
            match found {
                Some(i) => i < self.members@.len() && self.members@[i as int].id@ == who@,
                None => !self.is_member_spec(who@),
            },
    {
        let mut i: usize = 0;
        while i < self.members.len()
            invariant
                i <= self.members@.len(),
                forall|j: int| 0 <= j < i ==> (#[trigger] self.members@[j]).id@ != who@,
            decreases self.members@.len() - i,
        {
            if self.members[i].id == *who {
                return Some(i);
            }
            i += 1;
        }
        None
    }

    /// Whether `who` has a member record.
    pub fn is_member(&self, who: &AccountId) -> (yes: bool)
        ensures
            yes == self.is_member_spec(who@),
    {
        self.find_member(who).is_some()
    }

    /// Whether `who` owns `hackathon`.
    pub fn is_owner(hackathon: &Hackathon, who: &AccountId) -> (yes: bool)
        ensures
            yes == (hackathon.owner@ == who@),
    {
        hackathon.owner == *who
    }

    /// Whether `who` participates in `hackathon`.
    pub fn is_participant(hackathon: &Hackathon, who: &AccountId) -> (yes: bool)
        ensures
            yes == names_contain(hackathon.participants_list@, who@),
    {
        contains_name(&hackathon.participants_list, who)
    }

    /// Whether `who` is someone other than the owner of `hackathon`.
    pub fn not_self(hackathon: &Hackathon, who: &AccountId) -> (yes: bool)
        ensures
            yes == (hackathon.owner@ != who@),
    {
        !(hackathon.owner == *who)
    }

    /// Whether every listed name is a member and a participant of hackathon `h`.
    pub fn members_eligible(&self, h: usize, names: &Vec<AccountId>) -> (yes: bool)
        requires
            h < self.hackathons@.len(),
        ensures
            yes == self.all_eligible(h as int, names@),
    {
        let mut k: usize = 0;
        while k < names.len()
            invariant
                h < self.hackathons@.len(),
                k <= names@.len(),
                forall|j: int| 0 <= j < k ==> self.eligible(h as int, (#[trigger] names@[j])@),
            decreases names@.len() - k,
        {
            if !self.is_member(&names[k]) || !contains_name(&self.hackathons[h].participants_list, &names[k]) {
                assert(!self.eligible(h as int, names@[k as int]@));
                return false;
            }
            k += 1;
        }
        true
    }

    /// Registers the caller with a fresh record that has joined and created
    /// nothing. A caller who is already registered keeps their record as it
    /// is: the call changes nothing.
    pub fn add_member(&mut self, caller: AccountId, name: String, image: Option<String>, bio: Option<String>)
        requires
            old(self).wf(),
        ensures
            final(self).wf(),
            final(self).evolves_from(old(self)),
            final(self).is_member_spec(caller@),
            final(self).same_but_members(old(self)),
            old(self).is_member_spec(caller@) ==> *final(self) == *old(self),
            !old(self).is_member_spec(caller@) ==> {
                &&& final(self).members@.len() == old(self).members@.len() + 1
                &&& final(self).members@.take(old(self).members@.len() as int) == old(self).members@
                &&& final(self).members@.last()@ == (MemberView {
                    id: caller,
                    name,
                    image,
                    bio,
                    joined_hackathons: Seq::empty(),
                    created_hackathons: Seq::empty(),
                })
            },
    {
        if self.is_member(&caller) {
            return ;
        }
        let member = Member::new(&caller, name, image, bio);
        self.members.push(member);
        proof {
            assert(self.members@[self.members@.len() - 1].id@ == caller@);
            assert(self.members@.take(old(self).members@.len() as int) =~= old(self).members@);
            self.lemma_members_kept(old(self));
        }
    }

    /// Creates a hackathon owned by the caller, who must be a member.
    pub fn add_hackathon(&mut self, caller: AccountId, payload: HackathonPayload) -> (result: Result<
        HackathonId,
        LedgerError,
    >)
        requires
            old(self).wf(),
            old(self).hackathons@.len() < u64::MAX,
        ensures
            final(self).wf(),
            final(self).evolves_from(old(self)),
            match result {
                Ok(id) => {
                    &&& old(self).is_member_spec(caller@)
                    &&& id == old(self).next_hackathon_id
                    &&& final(self).next_hackathon_id == id + 1
                    &&& final(self).hackathons@.len() == old(self).hackathons@.len() + 1
                    &&& final(self).hackathons@.take(id as int) == old(self).hackathons@
                    &&& final(self).hackathons@[id as int]@ == (HackathonView {
                        owner: caller,
                        id,
                        name: payload.name,
                        description: payload.description,
                        image: payload.image,
                        start: payload.start,
                        end: payload.end,
                        tags: payload.tags@,
                        participants_list: Seq::empty(),
                        submissions_list: Seq::empty(),
                        categories_list: Seq::empty(),
                    })
                    &&& final(self).members@.len() == old(self).members@.len()
                    &&& forall|i: int|
                        0 <= i < old(self).members@.len() ==> (#[trigger] final(self).members@[i])@ == (
                        if old(self).members@[i].id@ == caller@ {
                            MemberView {
                                created_hackathons: old(self).members@[i].created_hackathons@.push(id),
                                ..old(self).members@[i]@
                            }
                        } else {
                            old(self).members@[i]@
                        })
                    &&& final(self).categories@ == old(self).categories@
                    &&& final(self).awards@ == old(self).awards@
                    &&& final(self).submissions@ == old(self).submissions@
                    &&& final(self).next_category_id == old(self).next_category_id
                    &&& final(self).next_award_id == old(self).next_award_id
                    &&& final(self).next_submission_id == old(self).next_submission_id
                },
                Err(e) => {
                    &&& e == LedgerError::Unauthorized
                    &&& !old(self).is_member_spec(caller@)
                    &&& *final(self) == *old(self)
                },
            },
    {
        let creator = match self.find_member(&caller) {
            Some(i) => i,
            None => {
                return Err(LedgerError::Unauthorized);
            },
        };
        let hackathon_id = self.next_hackathon_id;
        let hackathon = Hackathon::new(hackathon_id, caller, payload);
        self.hackathons.push(hackathon);
        self.members[creator].created_hackathons.push(hackathon_id);
        self.next_hackathon_id = hackathon_id + 1;
        proof {
            self.lemma_members_kept(old(self));
            assert(self.hackathons@.take(hackathon_id as int) =~= old(self).hackathons@);
            let h = self.hackathons@[hackathon_id as int];
            assert(h.participants_list@.len() == 0);
            assert(ids_below(h.categories_list@, self.categories@.len() as int));
            assert(ids_below(h.submissions_list@, self.submissions@.len() as int));
            assert(!names_contain(h.participants_list@, h.owner@));
            assert(names_distinct(h.participants_list@));
        }
        Ok(hackathon_id)
    }
}

} // verus!
