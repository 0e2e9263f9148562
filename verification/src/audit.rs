use vstd::prelude::*;
use crate::contract::{ids_below, names_distinct, HackathonContract};
use crate::member::AccountId;
use crate::text::{contains_name, names_contain};

verus! {

/// Whether every identifier of `ids` is below `bound`.
pub fn all_below(ids: &Vec<u64>, bound: usize) -> (yes: bool)
    ensures
        yes == ids_below(ids@, bound as int),
{
    let mut k: usize = 0;
    while k < ids.len()
        invariant
            k <= ids@.len(),
            forall|j: int| 0 <= j < k ==> (#[trigger] ids@[j]) < bound,
        decreases ids@.len() - k,
    {
        if ids[k] >= bound as u64 {
            return false;
        }
        k += 1;
    }
    true
}

/// Whether no two names of `names` have the same content.
pub fn distinct_names(names: &Vec<AccountId>) -> (yes: bool)
    ensures
        yes == names_distinct(names@),
{
    let mut i: usize = 0;
    while i < names.len()
        invariant
            i <= names@.len(),
            forall|a: int, b: int|
                0 <= a < i && 0 <= b < i && a != b ==> (#[trigger] names@[a])@ != (#[trigger] names@[b])@,
        decreases names@.len() - i,
    {
        let mut j: usize = 0;
        while j < i
            invariant
                j <= i < names@.len(),
                forall|b: int| 0 <= b < j ==> (#[trigger] names@[b])@ != names@[i as int]@,
            decreases i - j,
        {
            if names[j] == names[i] {
                return false;
            }
            j += 1;
        }
        i += 1;
    }
    true
}

impl HackathonContract {
    /// Every name of `names` has a member record.
    pub open spec fn all_are_members(&self, names: Seq<AccountId>) -> bool {
        forall|k: int| 0 <= k < names.len() ==> self.is_member_spec((#[trigger] names[k])@)
    }

    /// Whether every listed name has a member record.
    pub fn all_members(&self, names: &Vec<AccountId>) -> (yes: bool)
        ensures
            yes == self.all_are_members(names@),
    {
        let mut k: usize = 0;
        while k < names.len()
            invariant
                k <= names@.len(),
                forall|j: int| 0 <= j < k ==> self.is_member_spec((#[trigger] names@[j])@),
            decreases names@.len() - k,
        {
            if !self.is_member(&names[k]) {
                return false;
            }
            k += 1;
        }
        true
    }

    /// Whether no two member records have the same identity.
    pub fn distinct_members(&self) -> (yes: bool)
        ensures
            yes == self.members_distinct(),
    {
        let mut i: usize = 0;
        while i < self.members.len()
            invariant
                i <= self.members@.len(),
                forall|a: int, b: int|
                    0 <= a < i && 0 <= b < i && a != b ==> (#[trigger] self.members@[a]).id@ != (
                    #[trigger] self.members@[b]).id@,
            decreases self.members@.len() - i,
        {
            let mut j: usize = 0;
            while j < i
                invariant
                    j <= i < self.members@.len(),
                    forall|b: int| 0 <= b < j ==> (#[trigger] self.members@[b]).id@ != self.members@[i as int].id@,
                decreases i - j,
            {
                if self.members[j].id == self.members[i].id {
                    return false;
                }
                j += 1;
            }
            i += 1;
        }
        true
    }

    /// Whether the counters and the stored identifiers agree with the positions.
    pub fn ids_ok(&self) -> (ok: bool)
        ensures
            ok == self.ids_wf(),
    {
        if self.next_hackathon_id != self.hackathons.len() as u64 || self.next_category_id
            != self.categories.len() as u64 || self.next_award_id != self.awards.len() as u64
            || self.next_submission_id != self.submissions.len() as u64 {
            return false;
        }
        let mut i: usize = 0;
        while i < self.hackathons.len()
            invariant
                i <= self.hackathons@.len(),
                forall|j: int| 0 <= j < i ==> (#[trigger] self.hackathons@[j]).id == j,
            decreases self.hackathons@.len() - i,
        {
            if self.hackathons[i].id != i as u64 {
                return false;
            }
            i += 1;
        }
        i = 0;
        while i < self.categories.len()
            invariant
                i <= self.categories@.len(),
                forall|j: int| 0 <= j < i ==> (#[trigger] self.categories@[j]).id == j,
            decreases self.categories@.len() - i,
        {
            if self.categories[i].id != i as u64 {
                return false;
            }
            i += 1;
        }
        i = 0;
        while i < self.awards.len()
            invariant
                i <= self.awards@.len(),
                forall|j: int| 0 <= j < i ==> (#[trigger] self.awards@[j]).id == j,
            decreases self.awards@.len() - i,
        {
            if self.awards[i].id != i as u64 {
                return false;
            }
            i += 1;
        }
        i = 0;
        while i < self.submissions.len()
            invariant
                i <= self.submissions@.len(),
                forall|j: int| 0 <= j < i ==> (#[trigger] self.submissions@[j]).id == j,
            decreases self.submissions@.len() - i,
        {
            if self.submissions[i].id != i as u64 {
                return false;
            }
            i += 1;
        }
        true
    }

    /// Whether every stored reference resolves to a record.
    pub fn refs_ok(&self) -> (ok: bool)
        ensures
            ok == self.refs_wf(),
    {
        let mut i: usize = 0;
        while i < self.members.len()
            invariant
                i <= self.members@.len(),
                forall|j: int|
                    0 <= j < i ==> ids_below(
                        (#[trigger] self.members@[j]).joined_hackathons@,
                        self.hackathons@.len() as int,
                    ),
                forall|j: int|
                    0 <= j < i ==> ids_below(
                        (#[trigger] self.members@[j]).created_hackathons@,
                        self.hackathons@.len() as int,
                    ),
            decreases self.members@.len() - i,
        {
            if !all_below(&self.members[i].joined_hackathons, self.hackathons.len()) || !all_below(
                &self.members[i].created_hackathons,
                self.hackathons.len(),
            ) {
                return false;
            }
            i += 1;
        }
        i = 0;
        while i < self.hackathons.len()
            invariant
                i <= self.hackathons@.len(),
                forall|j: int|
                    0 <= j < i ==> ids_below(
                        (#[trigger] self.hackathons@[j]).categories_list@,
                        self.categories@.len() as int,
                    ),
                forall|j: int|
                    0 <= j < i ==> ids_below(
                        (#[trigger] self.hackathons@[j]).submissions_list@,
                        self.submissions@.len() as int,
                    ),
            decreases self.hackathons@.len() - i,
        {
            if !all_below(&self.hackathons[i].categories_list, self.categories.len()) || !all_below(
                &self.hackathons[i].submissions_list,
                self.submissions.len(),
            ) {
                return false;
            }
            i += 1;
        }
        i = 0;
        while i < self.categories.len()
            invariant
                i <= self.categories@.len(),
                forall|j: int|
                    0 <= j < i ==> ids_below(
                        (#[trigger] self.categories@[j]).awards@,
                        self.awards@.len() as int,
                    ),
            decreases self.categories@.len() - i,
        {
            if !all_below(&self.categories[i].awards, self.awards.len()) {
                return false;
            }
            i += 1;
        }
        i = 0;
        while i < self.awards.len()
            invariant
                i <= self.awards@.len(),
                forall|j: int|
                    0 <= j < i ==> ((#[trigger] self.awards@[j]).winner matches Some(s) ==> s
                        < self.submissions@.len()),
            decreases self.awards@.len() - i,
        {
            match self.awards[i].winner {
                Some(s) => {
                    if s >= self.submissions.len() as u64 {
                        return false;
                    }
                },
                None => {},
            }
            i += 1;
        }
        true
    }

    /// Whether members, owners, participants and awards stand as the
    /// invariant asks.
    pub fn roles_ok(&self) -> (ok: bool)
        ensures
            ok == self.roles_wf(),
    {
        if !self.distinct_members() {
            return false;
        }
        let mut i: usize = 0;
        while i < self.hackathons.len()
            invariant
                i <= self.hackathons@.len(),
                forall|j: int| 0 <= j < i ==> self.is_member_spec((#[trigger] self.hackathons@[j]).owner@),
                forall|j: int|
                    0 <= j < i ==> self.all_are_members((#[trigger] self.hackathons@[j]).participants_list@),
                forall|j: int|
                    0 <= j < i ==> !names_contain(
                        (#[trigger] self.hackathons@[j]).participants_list@,
                        self.hackathons@[j].owner@,
                    ),
                forall|j: int|
                    0 <= j < i ==> names_distinct((#[trigger] self.hackathons@[j]).participants_list@),
            decreases self.hackathons@.len() - i,
        {
            let h = &self.hackathons[i];
            if !self.is_member(&h.owner) || !self.all_members(&h.participants_list) || contains_name(
                &h.participants_list,
                &h.owner,
            ) || !distinct_names(&h.participants_list) {
                return false;
            }
            i += 1;
        }
        i = 0;
        while i < self.submissions.len()
            invariant
                i <= self.submissions@.len(),
                forall|j: int|
                    0 <= j < i ==> self.all_are_members((#[trigger] self.submissions@[j]).members@),
            decreases self.submissions@.len() - i,
        {
            if !self.all_members(&self.submissions[i].members) {
                return false;
            }
            i += 1;
        }
        i = 0;
        while i < self.awards.len()
            invariant
                i <= self.awards@.len(),
                forall|j: int| 0 <= j < i ==> (#[trigger] self.awards@[j]).wf(),
            decreases self.awards@.len() - i,
        {
            if self.awards[i].is_awarded && self.awards[i].winner.is_none() {
                return false;
            }
            i += 1;
        }
        true
    }

    /// Whether the ledger's invariant holds.
    pub fn is_wf(&self) -> (ok: bool)
        ensures
            ok == self.wf(),
    {
        self.ids_ok() && self.refs_ok() && self.roles_ok()
    }
}

} // verus!
