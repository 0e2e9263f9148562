use vstd::prelude::*;
use crate::assembler::lemma_gather_all_present;
use crate::award::AwardState;
use crate::contract::HackathonContract;
use crate::error::LedgerError;
use crate::hackathon::Hackathon;

verus! {

/// A ledger evolves from itself.
pub proof fn law_evolution_reflexive(ledger: HackathonContract)
    ensures
        ledger.evolves_from(&ledger),
{
}

/// Evolution composes: what holds across each single operation holds across
/// any sequence of them.
pub proof fn law_evolution_transitive(first: HackathonContract, second: HackathonContract, third: HackathonContract)
    requires
        second.evolves_from(&first),
        third.evolves_from(&second),
    ensures
        third.evolves_from(&first),
{
    assert forall|i: int| 0 <= i < first.awards@.len() implies {
        let a = #[trigger] first.awards@[i];
        let b = third.awards@[i];
        &&& b.id == a.id
        &&& b.price == a.price
        &&& a.winner.is_some() ==> b.winner == a.winner
        &&& a.is_awarded ==> b.is_awarded
    } by {
        let m = second.awards@[i];
        assert(m.id == first.awards@[i].id);
    }
}

/// Identifiers of one kind are never handed out twice and grow strictly: a
/// creation hands out the counter's value and advances the counter by one, so
/// the counter of any later state, which the next creation of that kind hands
/// out, is greater.
pub proof fn law_ids_strictly_increase(
    before_first: HackathonContract,
    after_first: HackathonContract,
    before_second: HackathonContract,
)
    requires
        before_second.evolves_from(&after_first),
    ensures
        after_first.next_hackathon_id == before_first.next_hackathon_id + 1
            ==> before_first.next_hackathon_id < before_second.next_hackathon_id,
        after_first.next_category_id == before_first.next_category_id + 1
            ==> before_first.next_category_id < before_second.next_category_id,
        after_first.next_award_id == before_first.next_award_id + 1 ==> before_first.next_award_id
            < before_second.next_award_id,
        after_first.next_submission_id == before_first.next_submission_id + 1
            ==> before_first.next_submission_id < before_second.next_submission_id,
{
}

/// No identifier is handed out twice: every stored record has an identifier
/// below the counter of its kind, which is the identifier that the next
/// creation of that kind hands out.
pub proof fn law_fresh_ids_unused(ledger: HackathonContract)
    requires
        ledger.wf(),
    ensures
        forall|i: int|
            0 <= i < ledger.hackathons@.len() ==> (#[trigger] ledger.hackathons@[i]).id
                < ledger.next_hackathon_id,
        forall|i: int|
            0 <= i < ledger.categories@.len() ==> (#[trigger] ledger.categories@[i]).id
                < ledger.next_category_id,
        forall|i: int|
            0 <= i < ledger.awards@.len() ==> (#[trigger] ledger.awards@[i]).id < ledger.next_award_id,
        forall|i: int|
            0 <= i < ledger.submissions@.len() ==> (#[trigger] ledger.submissions@[i]).id
                < ledger.next_submission_id,
{
}

/// No reference is ever orphaned: a category, submission or award that its
/// parent lists stays listed by that parent in every later state, and resolves
/// to a stored record there.
pub proof fn law_listed_children_stay(
    before: HackathonContract,
    after: HackathonContract,
    hackathon: int,
    category: int,
    child: u64,
)
    requires
        after.wf(),
        after.evolves_from(&before),
        0 <= hackathon < before.hackathons@.len(),
        0 <= category < before.categories@.len(),
    ensures
        before.hackathons@[hackathon].categories_list@.contains(child)
            ==> after.hackathons@[hackathon].categories_list@.contains(child) && child
            < after.categories@.len(),
        before.hackathons@[hackathon].submissions_list@.contains(child)
            ==> after.hackathons@[hackathon].submissions_list@.contains(child) && child
            < after.submissions@.len(),
        before.categories@[category].awards@.contains(child) ==> after.categories@[category].awards@.contains(
            child,
        ) && child < after.awards@.len(),
{
    let h0 = before.hackathons@[hackathon];
    let h1 = after.hackathons@[hackathon];
    let c0 = before.categories@[category];
    let c1 = after.categories@[category];
    if h0.categories_list@.contains(child) {
        let k = choose|k: int| 0 <= k < h0.categories_list@.len() && h0.categories_list@[k] == child;
        assert(h1.categories_list@[k] == child);
    }
    if h0.submissions_list@.contains(child) {
        let k = choose|k: int| 0 <= k < h0.submissions_list@.len() && h0.submissions_list@[k] == child;
        assert(h1.submissions_list@[k] == child);
    }
    if c0.awards@.contains(child) {
        let k = choose|k: int| 0 <= k < c0.awards@.len() && c0.awards@[k] == child;
        assert(c1.awards@[k] == child);
    }
}

/// A submission is frozen when it is made: in every later state it is stored
/// under the same identifier, unchanged.
pub proof fn law_submissions_frozen(before: HackathonContract, after: HackathonContract, submission: int)
    requires
        after.evolves_from(&before),
        0 <= submission < before.submissions@.len(),
    ensures
        submission < after.submissions@.len(),
        after.submissions@[submission] == before.submissions@[submission],
{
}

/// An award only moves forward: its winner, once set, never changes; once
/// paid it stays paid; and it is never paid without a winner.
pub proof fn law_award_monotone(before: HackathonContract, after: HackathonContract, award: int)
    requires
        before.wf(),
        after.wf(),
        after.evolves_from(&before),
        0 <= award < before.awards@.len(),
    ensures
        award < after.awards@.len(),
        before.awards@[award].winner.is_some() ==> after.awards@[award].winner
            == before.awards@[award].winner,
        before.awards@[award].is_awarded ==> after.awards@[award].is_awarded,
        after.awards@[award].is_awarded ==> after.awards@[award].winner.is_some(),
        before.awards@[award].spec_state() == AwardState::Paid ==> after.awards@[award].spec_state()
            == AwardState::Paid,
        before.awards@[award].spec_state() == AwardState::Judged ==> after.awards@[award].spec_state()
            != AwardState::Open,
{
    let a = before.awards@[award];
    let b = after.awards@[award];
    assert(a.wf());
    assert(b.wf());
}

/// Judging and paying are refused as unauthorized for everyone but the owner
/// of the hackathon named, whatever else is passed.
pub proof fn law_non_owner_refused(
    ledger: HackathonContract,
    caller: Seq<char>,
    hackathon_id: u64,
    category_id: u64,
    award_id: u64,
    submission_id: u64,
    attached: u128,
)
    requires
        hackathon_id < ledger.hackathons@.len(),
        ledger.hackathons@[hackathon_id as int].owner@ != caller,
    ensures
        ledger.judge_guard(caller, hackathon_id, category_id, award_id, submission_id) == Some(
            LedgerError::Unauthorized,
        ),
        ledger.pay_guard(caller, hackathon_id, category_id, award_id, attached) == Some(
            LedgerError::Unauthorized,
        ),
{
}

/// The owner of a hackathon is refused as a participant of it.
pub proof fn law_owner_cannot_join(ledger: HackathonContract, caller: Seq<char>, hackathon_id: u64)
    requires
        hackathon_id < ledger.hackathons@.len(),
        ledger.hackathons@[hackathon_id as int].owner@ == caller,
    ensures
        ledger.join_guard(caller, hackathon_id) == Some(LedgerError::Unauthorized),
{
}

/// Where the owner pays an unpaid award of the right category and hackathon
/// with a value other than the prize, the payment is refused as a mismatch.
pub proof fn law_payment_exact(
    ledger: HackathonContract,
    caller: Seq<char>,
    hackathon_id: u64,
    category_id: u64,
    award_id: u64,
    attached: u128,
)
    requires
        ledger.award_access_guard(caller, hackathon_id, category_id, award_id).is_none(),
        !ledger.awards@[award_id as int].is_awarded,
        attached != ledger.awards@[award_id as int].price,
    ensures
        ledger.pay_guard(caller, hackathon_id, category_id, award_id, attached) == Some(
            LedgerError::PaymentMismatch,
        ),
{
}

/// The detail of a hackathon leaves nothing out: it holds one resolved entry
/// for each participant, submission and category that the hackathon lists, in
/// the order of the lists.
pub proof fn law_detail_is_complete(ledger: HackathonContract, hackathon_id: u64)
    requires
        ledger.wf(),
        hackathon_id < ledger.hackathons@.len(),
    ensures
        ({
            let h = ledger.hackathons@[hackathon_id as int];
            let detail = ledger.hackathon_json(hackathon_id);
            &&& detail.participants.len() == h.participants_list@.len()
            &&& forall|k: int|
                0 <= k < h.participants_list@.len() ==> Some(#[trigger] detail.participants[k])
                    == ledger.member_json(h.participants_list@[k]@)
            &&& detail.submissions.len() == h.submissions_list@.len()
            &&& forall|k: int|
                0 <= k < h.submissions_list@.len() ==> Some(#[trigger] detail.submissions[k])
                    == ledger.submission_json(h.submissions_list@[k])
            &&& detail.categories.len() == h.categories_list@.len()
            &&& forall|k: int|
                0 <= k < h.categories_list@.len() ==> Some(#[trigger] detail.categories[k])
                    == ledger.category_json(h.categories_list@[k])
        }),
{
    let h = ledger.hackathons@[hackathon_id as int];
    let members = ledger.member_lookups(h.participants_list@);
    let submissions = ledger.submission_jsons(h.submissions_list@);
    let categories = ledger.category_jsons(h.categories_list@);
    assert forall|k: int| 0 <= k < members.len() implies (#[trigger] members[k]).is_some() by {
        assert(ledger.is_member_spec(ledger.hackathons@[hackathon_id as int].participants_list@[k]@));
    }
    assert forall|k: int| 0 <= k < submissions.len() implies (#[trigger] submissions[k]).is_some() by {
        assert(h.submissions_list@[k] < ledger.submissions@.len());
    }
    assert forall|k: int| 0 <= k < categories.len() implies (#[trigger] categories[k]).is_some() by {
        assert(h.categories_list@[k] < ledger.categories@.len());
    }
    lemma_gather_all_present(members);
    lemma_gather_all_present(submissions);
    lemma_gather_all_present(categories);
}

/// Paying is safe to retry: a refused payment leaves the award as it was, and
/// after an accepted one every further payment of that award is refused as
/// being in the wrong state, so no award is paid twice.
pub proof fn law_no_double_payment(
    before: HackathonContract,
    after: HackathonContract,
    caller: Seq<char>,
    hackathon_id: u64,
    category_id: u64,
    award_id: u64,
    attached: u128,
)
    requires
        after.evolves_from(&before),
        award_id < before.awards@.len(),
        before.awards@[award_id as int].is_awarded,
        after.award_access_guard(caller, hackathon_id, category_id, award_id).is_none(),
    ensures
        after.pay_guard(caller, hackathon_id, category_id, award_id, attached) == Some(
            LedgerError::InvalidState,
        ),
{
    assert(after.awards@[award_id as int].is_awarded) by {
        assert(before.awards@[award_id as int].is_awarded);
    }
}

/// A hackathon without categories has a total prize of zero.
pub proof fn law_no_categories_no_prize(ledger: HackathonContract, hackathon: Hackathon)
    requires
        hackathon.categories_list@.len() == 0,
    ensures
        ledger.total_prize(&hackathon) == 0,
{
}

} // verus!
