use hackathon_ledger::audit::{all_below, distinct_names};
use hackathon_ledger::text::{contains_id, contains_name, copy_ids, copy_opt_text, copy_texts};
use hackathon_ledger::{
    AwardState, Hackathon, HackathonContract, HackathonPayload, LedgerError, Member,
};

fn s(text: &str) -> String {
    String::from(text)
}

fn payload(name: &str) -> HackathonPayload {
    HackathonPayload {
        name: s(name),
        description: s("a weekend of building"),
        tags: vec![s("rust"), s("web")],
        image: s("banner.png"),
        start: 100,
        end: 200,
    }
}

/// A ledger with owner `olga`, member `mia`, one hackathon, one category and
/// one award worth 1_000_000, which `mia` has joined.
fn staged() -> HackathonContract {
    let mut ledger = HackathonContract::init();
    ledger.add_member(s("olga"), s("Olga"), None, None);
    ledger.add_member(s("mia"), s("Mia"), Some(s("mia.png")), Some(s("builder")));
    assert_eq!(ledger.add_hackathon(s("olga"), payload("H")), Ok(0));
    assert_eq!(ledger.add_category(&s("olga"), 0, s("C")), Ok(0));
    assert_eq!(ledger.add_award(&s("olga"), 0, 0, s("A"), 1_000_000), Ok(0));
    assert_eq!(ledger.join_hackathon(s("mia"), 0), Ok(()));
    ledger
}

fn submit(ledger: &mut HackathonContract, members: Vec<String>) -> Result<u64, LedgerError> {
    ledger.submit_project(
        0,
        vec![0],
        members,
        s("P"),
        s("a project"),
        s("p.png"),
        vec![s("https://example.org/p")],
        150,
    )
}

#[test]
fn init_is_empty() {
    let ledger = HackathonContract::init();
    assert!(ledger.members.is_empty());
    assert!(ledger.hackathons.is_empty());
    assert!(ledger.categories.is_empty());
    assert!(ledger.awards.is_empty());
    assert!(ledger.submissions.is_empty());
    assert_eq!(ledger.next_hackathon_id, 0);
    assert_eq!(ledger.next_category_id, 0);
    assert_eq!(ledger.next_award_id, 0);
    assert_eq!(ledger.next_submission_id, 0);
    assert!(ledger.get_all_hackathons().is_empty());
}

#[test]
fn full_award_lifecycle() {
    let mut ledger = staged();
    assert_eq!(submit(&mut ledger, vec![s("mia")]), Ok(0));
    assert_eq!(ledger.awards[0].state(), AwardState::Open);

    assert_eq!(ledger.judge_winner(&s("olga"), 0, 0, 0, 0), Ok(()));
    assert_eq!(ledger.awards[0].winner, Some(0));
    assert!(!ledger.awards[0].is_awarded);
    assert_eq!(ledger.awards[0].state(), AwardState::Judged);

    let payout = ledger.award_winner(&s("olga"), 0, 0, 0, 1_000_000);
    let payout = payout.ok().expect("the payment is accepted");
    assert_eq!(payout.recipient, "mia");
    assert_eq!(payout.amount, 1_000_000);
    assert!(ledger.awards[0].is_awarded);
    assert_eq!(ledger.awards[0].winner, Some(0));
    assert_eq!(ledger.awards[0].state(), AwardState::Paid);

    let again = ledger.award_winner(&s("olga"), 0, 0, 0, 1_000_000);
    assert_eq!(again.err(), Some(LedgerError::InvalidState));
    assert!(ledger.awards[0].is_awarded);
}

#[test]
fn non_member_cannot_create_hackathon() {
    let mut ledger = HackathonContract::init();
    assert_eq!(ledger.add_hackathon(s("nobody"), payload("H")), Err(LedgerError::Unauthorized));
    assert!(ledger.hackathons.is_empty());
    assert_eq!(ledger.next_hackathon_id, 0);
}

#[test]
fn submission_with_member_who_never_joined_is_refused() {
    let mut ledger = staged();
    ledger.add_member(s("zoe"), s("Zoe"), None, None);
    assert_eq!(submit(&mut ledger, vec![s("mia"), s("zoe")]), Err(LedgerError::InvalidInput));
    assert!(ledger.submissions.is_empty());
    assert!(ledger.hackathons[0].submissions_list.is_empty());
    assert_eq!(ledger.next_submission_id, 0);
}

#[test]
fn submission_with_unregistered_name_is_refused() {
    let mut ledger = staged();
    assert_eq!(submit(&mut ledger, vec![s("ghost")]), Err(LedgerError::InvalidInput));
    assert!(ledger.submissions.is_empty());
}

#[test]
fn submission_to_unknown_hackathon_is_not_found() {
    let mut ledger = staged();
    let r = ledger.submit_project(7, vec![], vec![s("mia")], s("P"), s("d"), s("i"), vec![], 1);
    assert_eq!(r, Err(LedgerError::NotFound));
    assert!(ledger.submissions.is_empty());
}

#[test]
fn submission_keeps_what_it_was_given() {
    let mut ledger = staged();
    assert_eq!(submit(&mut ledger, vec![s("mia")]), Ok(0));
    let stored = &ledger.submissions[0];
    assert_eq!(stored.id, 0);
    assert_eq!(stored.name, "P");
    assert_eq!(stored.description, "a project");
    assert_eq!(stored.image, "p.png");
    assert_eq!(stored.time, 150);
    assert_eq!(stored.link, vec![s("https://example.org/p")]);
    assert_eq!(stored.categories, vec![0]);
    assert_eq!(stored.members, vec![s("mia")]);
    assert_eq!(ledger.hackathons[0].submissions_list, vec![0]);
}

#[test]
fn identifiers_grow_by_one_per_kind() {
    let mut ledger = staged();
    assert_eq!(ledger.add_hackathon(s("olga"), payload("H2")), Ok(1));
    assert_eq!(ledger.add_hackathon(s("mia"), payload("H3")), Ok(2));
    assert_eq!(ledger.add_category(&s("olga"), 0, s("C2")), Ok(1));
    assert_eq!(ledger.add_category(&s("olga"), 1, s("C3")), Ok(2));
    assert_eq!(ledger.add_award(&s("olga"), 0, 1, s("A2"), 5), Ok(1));
    assert_eq!(ledger.add_award(&s("olga"), 0, 0, s("A3"), 6), Ok(2));
    assert_eq!(submit(&mut ledger, vec![s("mia")]), Ok(0));
    assert_eq!(submit(&mut ledger, vec![s("mia")]), Ok(1));
    assert_eq!(ledger.next_hackathon_id, 3);
    assert_eq!(ledger.next_category_id, 3);
    assert_eq!(ledger.next_award_id, 3);
    assert_eq!(ledger.next_submission_id, 2);
}

#[test]
fn refused_creation_does_not_advance_the_counter() {
    let mut ledger = staged();
    assert_eq!(ledger.add_category(&s("mia"), 0, s("X")), Err(LedgerError::Unauthorized));
    assert_eq!(ledger.add_category(&s("olga"), 9, s("X")), Err(LedgerError::NotFound));
    assert_eq!(ledger.next_category_id, 1);
    assert_eq!(ledger.add_category(&s("olga"), 0, s("C2")), Ok(1));
}

#[test]
fn children_are_listed_by_their_parents() {
    let mut ledger = staged();
    assert_eq!(ledger.hackathons[0].categories_list, vec![0]);
    assert_eq!(ledger.categories[0].awards, vec![0]);
    assert_eq!(ledger.members[0].created_hackathons, vec![0]);
    assert_eq!(ledger.members[1].joined_hackathons, vec![0]);
    assert_eq!(ledger.hackathons[0].participants_list, vec![s("mia")]);
    assert_eq!(ledger.add_award(&s("olga"), 0, 0, s("A2"), 3), Ok(1));
    assert_eq!(ledger.categories[0].awards, vec![0, 1]);
    assert_eq!(ledger.awards[1].id, 1);
    assert_eq!(ledger.awards[1].price, 3);
    assert_eq!(ledger.awards[1].winner, None);
    assert!(!ledger.awards[1].is_awarded);
}

#[test]
fn new_hackathon_holds_its_payload() {
    let ledger = staged();
    let h = &ledger.hackathons[0];
    assert_eq!(h.id, 0);
    assert_eq!(h.owner, "olga");
    assert_eq!(h.name, "H");
    assert_eq!(h.description, "a weekend of building");
    assert_eq!(h.image, "banner.png");
    assert_eq!(h.start, 100);
    assert_eq!(h.end, 200);
    assert_eq!(h.tags, vec![s("rust"), s("web")]);
    assert!(h.submissions_list.is_empty());
}

#[test]
fn add_award_guards() {
    let mut ledger = staged();
    assert_eq!(ledger.add_award(&s("olga"), 4, 0, s("A"), 1), Err(LedgerError::NotFound));
    assert_eq!(ledger.add_award(&s("mia"), 0, 0, s("A"), 1), Err(LedgerError::Unauthorized));
    assert_eq!(ledger.add_award(&s("olga"), 0, 4, s("A"), 1), Err(LedgerError::NotFound));
    assert_eq!(ledger.awards.len(), 1);
    assert_eq!(ledger.categories[0].awards, vec![0]);
}

#[test]
fn award_for_a_category_of_another_hackathon_is_refused() {
    let mut ledger = staged();
    assert_eq!(ledger.add_hackathon(s("mia"), payload("other")), Ok(1));
    assert_eq!(ledger.add_category(&s("mia"), 1, s("theirs")), Ok(1));
    // olga owns hackathon 0, which does not list category 1
    assert_eq!(ledger.add_award(&s("olga"), 0, 1, s("A"), 5), Err(LedgerError::InvalidInput));
    // mia owns hackathon 1, which does not list category 0
    assert_eq!(ledger.add_award(&s("mia"), 1, 0, s("A"), 5), Err(LedgerError::InvalidInput));
    assert_eq!(ledger.awards.len(), 1);
    assert_eq!(ledger.next_award_id, 1);
    assert_eq!(ledger.categories[0].awards, vec![0]);
    assert!(ledger.categories[1].awards.is_empty());
    assert_eq!(ledger.add_award(&s("mia"), 1, 1, s("A"), 5), Ok(1));
    assert_eq!(ledger.categories[1].awards, vec![1]);
}

#[test]
fn join_guards() {
    let mut ledger = staged();
    assert_eq!(ledger.join_hackathon(s("nobody"), 0), Err(LedgerError::Unauthorized));
    assert_eq!(ledger.join_hackathon(s("mia"), 3), Err(LedgerError::NotFound));
    assert_eq!(ledger.join_hackathon(s("olga"), 0), Err(LedgerError::Unauthorized));
    assert_eq!(ledger.join_hackathon(s("mia"), 0), Err(LedgerError::InvalidState));
    assert_eq!(ledger.hackathons[0].participants_list, vec![s("mia")]);
    assert_eq!(ledger.members[1].joined_hackathons, vec![0]);
    assert!(ledger.members[0].joined_hackathons.is_empty());
}

#[test]
fn non_owner_cannot_judge_or_pay() {
    let mut ledger = staged();
    assert_eq!(submit(&mut ledger, vec![s("mia")]), Ok(0));
    assert_eq!(ledger.judge_winner(&s("mia"), 0, 0, 0, 0), Err(LedgerError::Unauthorized));
    assert_eq!(ledger.judge_winner(&s("mia"), 0, 9, 9, 9), Err(LedgerError::Unauthorized));
    assert_eq!(ledger.awards[0].winner, None);
    assert_eq!(ledger.judge_winner(&s("olga"), 0, 0, 0, 0), Ok(()));
    let r = ledger.award_winner(&s("mia"), 0, 0, 0, 1_000_000);
    assert_eq!(r.err(), Some(LedgerError::Unauthorized));
    assert!(!ledger.awards[0].is_awarded);
}

#[test]
fn judge_guards() {
    let mut ledger = staged();
    assert_eq!(submit(&mut ledger, vec![s("mia")]), Ok(0));
    assert_eq!(ledger.add_hackathon(s("olga"), payload("H2")), Ok(1));
    assert_eq!(ledger.add_category(&s("olga"), 1, s("C2")), Ok(1));
    assert_eq!(ledger.add_award(&s("olga"), 1, 1, s("A2"), 9), Ok(1));

    assert_eq!(ledger.judge_winner(&s("olga"), 5, 0, 0, 0), Err(LedgerError::NotFound));
    // category 1 belongs to the other hackathon
    assert_eq!(ledger.judge_winner(&s("olga"), 0, 1, 1, 0), Err(LedgerError::InvalidInput));
    // award 1 belongs to the other category
    assert_eq!(ledger.judge_winner(&s("olga"), 0, 0, 1, 0), Err(LedgerError::InvalidInput));
    assert_eq!(ledger.judge_winner(&s("olga"), 0, 0, 0, 8), Err(LedgerError::NotFound));
    // mia never joined hackathon 1
    assert_eq!(ledger.judge_winner(&s("olga"), 1, 1, 1, 0), Err(LedgerError::InvalidInput));
    assert_eq!(ledger.awards[0].winner, None);
    assert_eq!(ledger.awards[1].winner, None);

    assert_eq!(ledger.judge_winner(&s("olga"), 0, 0, 0, 0), Ok(()));
    assert_eq!(submit(&mut ledger, vec![s("mia")]), Ok(1));
    assert_eq!(ledger.judge_winner(&s("olga"), 0, 0, 0, 1), Err(LedgerError::InvalidState));
    assert_eq!(ledger.awards[0].winner, Some(0));
}

#[test]
fn payment_must_equal_the_prize() {
    let mut ledger = staged();
    assert_eq!(submit(&mut ledger, vec![s("mia")]), Ok(0));
    assert_eq!(ledger.judge_winner(&s("olga"), 0, 0, 0, 0), Ok(()));
    for attached in [0u128, 999_999, 1_000_001, u128::MAX] {
        let r = ledger.award_winner(&s("olga"), 0, 0, 0, attached);
        assert_eq!(r.err(), Some(LedgerError::PaymentMismatch));
        assert!(!ledger.awards[0].is_awarded);
        assert_eq!(ledger.awards[0].winner, Some(0));
    }
    assert!(ledger.award_winner(&s("olga"), 0, 0, 0, 1_000_000).is_ok());
}

#[test]
fn pay_guards() {
    let mut ledger = staged();
    assert_eq!(submit(&mut ledger, vec![s("mia")]), Ok(0));
    let r = ledger.award_winner(&s("olga"), 3, 0, 0, 1_000_000);
    assert_eq!(r.err(), Some(LedgerError::NotFound));
    let r = ledger.award_winner(&s("olga"), 0, 2, 0, 1_000_000);
    assert_eq!(r.err(), Some(LedgerError::InvalidInput));
    let r = ledger.award_winner(&s("olga"), 0, 0, 2, 1_000_000);
    assert_eq!(r.err(), Some(LedgerError::InvalidInput));
    // never judged: there is nobody to pay
    let r = ledger.award_winner(&s("olga"), 0, 0, 0, 1_000_000);
    assert_eq!(r.err(), Some(LedgerError::InvalidState));
    assert!(!ledger.awards[0].is_awarded);
}

#[test]
fn prize_goes_to_the_first_listed_member() {
    let mut ledger = staged();
    ledger.add_member(s("zoe"), s("Zoe"), None, None);
    assert_eq!(ledger.join_hackathon(s("zoe"), 0), Ok(()));
    assert_eq!(submit(&mut ledger, vec![s("zoe"), s("mia")]), Ok(0));
    assert_eq!(ledger.judge_winner(&s("olga"), 0, 0, 0, 0), Ok(()));
    let payout = ledger.award_winner(&s("olga"), 0, 0, 0, 1_000_000).ok().expect("accepted");
    assert_eq!(payout.recipient, "zoe");
    assert_eq!(payout.amount, 1_000_000);
}

#[test]
fn submission_without_members_cannot_be_paid() {
    let mut ledger = staged();
    assert_eq!(submit(&mut ledger, vec![]), Ok(0));
    assert_eq!(ledger.judge_winner(&s("olga"), 0, 0, 0, 0), Ok(()));
    let r = ledger.award_winner(&s("olga"), 0, 0, 0, 1_000_000);
    assert_eq!(r.err(), Some(LedgerError::InvalidState));
    assert!(!ledger.awards[0].is_awarded);
}

#[test]
fn total_prize_sums_reachable_awards() {
    let mut ledger = staged();
    assert_eq!(ledger.get_total_prize(&ledger.hackathons[0]), 1_000_000);
    assert_eq!(ledger.add_award(&s("olga"), 0, 0, s("A2"), 250), Ok(1));
    assert_eq!(ledger.add_category(&s("olga"), 0, s("C2")), Ok(1));
    assert_eq!(ledger.add_award(&s("olga"), 0, 1, s("A3"), 7), Ok(2));
    assert_eq!(ledger.get_total_prize(&ledger.hackathons[0]), 1_000_257);
    assert_eq!(ledger.checked_total_prize(&ledger.hackathons[0]), Some(1_000_257));
    assert_eq!(ledger.sum_awards(&vec![0, 1]), Some(1_000_250));

    assert_eq!(ledger.add_hackathon(s("mia"), payload("empty")), Ok(1));
    assert_eq!(ledger.get_total_prize(&ledger.hackathons[1]), 0);
}

#[test]
fn total_prize_skips_what_is_not_stored() {
    let ledger = staged();
    let mut loose = ledger.hackathons[0].copy();
    loose.categories_list = vec![42, 0, 43];
    assert_eq!(ledger.get_total_prize(&loose), 1_000_000);
    assert_eq!(ledger.sum_awards(&vec![9, 0, 9]), Some(1_000_000));
}

#[test]
fn checked_total_reports_overflow() {
    let mut ledger = staged();
    assert_eq!(ledger.add_award(&s("olga"), 0, 0, s("huge"), u128::MAX), Ok(1));
    assert_eq!(ledger.checked_total_prize(&ledger.hackathons[0]), None);
    assert_eq!(ledger.sum_awards(&vec![1]), Some(u128::MAX));
    assert_eq!(ledger.sum_awards(&vec![0, 1]), None);
}

#[test]
fn registering_again_keeps_the_record() {
    let mut ledger = staged();
    assert_eq!(ledger.add_hackathon(s("mia"), payload("second")), Ok(1));
    ledger.add_member(s("mia"), s("Mia II"), None, None);
    assert_eq!(ledger.members.len(), 2);
    assert_eq!(ledger.members[1].id, "mia");
    assert_eq!(ledger.members[1].name, "Mia");
    assert_eq!(ledger.members[1].image, Some(s("mia.png")));
    assert_eq!(ledger.members[1].bio, Some(s("builder")));
    assert_eq!(ledger.members[1].joined_hackathons, vec![0]);
    assert_eq!(ledger.members[1].created_hackathons, vec![1]);
    ledger.add_member(s("olga"), s("x"), Some(s("y")), Some(s("z")));
    assert_eq!(ledger.members[0].name, "Olga");
    assert_eq!(ledger.members[0].image, None);
    assert_eq!(ledger.members[0].created_hackathons, vec![0]);
}

#[test]
fn first_registration_makes_a_fresh_record() {
    let mut ledger = staged();
    ledger.add_member(s("zoe"), s("Zoe"), Some(s("z.png")), None);
    assert_eq!(ledger.members.len(), 3);
    assert_eq!(ledger.members[2].id, "zoe");
    assert_eq!(ledger.members[2].name, "Zoe");
    assert_eq!(ledger.members[2].image, Some(s("z.png")));
    assert_eq!(ledger.members[2].bio, None);
    assert!(ledger.members[2].joined_hackathons.is_empty());
    assert!(ledger.members[2].created_hackathons.is_empty());
    assert_eq!(ledger.members[0].name, "Olga");
    assert_eq!(ledger.members[1].name, "Mia");
}

#[test]
fn update_member_replaces_only_what_is_given() {
    let mut ledger = staged();
    let r = ledger.update_member(&s("mia"), Some(s("Maria")), None, Some(s("maker")));
    let json = r.ok().expect("mia is a member");
    assert_eq!(json.id, "mia");
    assert_eq!(json.name, "Maria");
    assert_eq!(json.image, Some(s("mia.png")));
    assert_eq!(json.bio, Some(s("maker")));
    assert_eq!(ledger.members[1].name, "Maria");
    assert_eq!(ledger.members[1].joined_hackathons, vec![0]);
    let r = ledger.update_member(&s("nobody"), Some(s("x")), None, None);
    assert_eq!(r.err(), Some(LedgerError::Unauthorized));
}

#[test]
fn guards_answer_as_named() {
    let ledger = staged();
    assert!(ledger.is_member(&s("mia")));
    assert!(!ledger.is_member(&s("nobody")));
    assert_eq!(ledger.find_member(&s("mia")), Some(1));
    assert_eq!(ledger.find_member(&s("nobody")), None);
    let h = &ledger.hackathons[0];
    assert!(HackathonContract::is_owner(h, &s("olga")));
    assert!(!HackathonContract::is_owner(h, &s("mia")));
    assert!(HackathonContract::not_self(h, &s("mia")));
    assert!(!HackathonContract::not_self(h, &s("olga")));
    assert!(HackathonContract::is_participant(h, &s("mia")));
    assert!(!HackathonContract::is_participant(h, &s("olga")));
    assert!(ledger.members_eligible(0, &vec![s("mia")]));
    assert!(!ledger.members_eligible(0, &vec![s("mia"), s("olga")]));
    assert_eq!(ledger.check_award_access(&s("olga"), 0, 0, 0), None);
    assert_eq!(ledger.check_award_access(&s("mia"), 0, 0, 0), Some(LedgerError::Unauthorized));
}

#[test]
fn detail_view_joins_all_three_lists() {
    let mut ledger = staged();
    assert_eq!(submit(&mut ledger, vec![s("mia")]), Ok(0));
    assert_eq!(ledger.judge_winner(&s("olga"), 0, 0, 0, 0), Ok(()));
    let detail = ledger.get_detail_hackathon_by_id(0).ok().expect("stored");
    assert_eq!(detail.participants.len(), 1);
    assert_eq!(detail.participants[0].id, "mia");
    assert_eq!(detail.participants[0].name, "Mia");
    assert_eq!(detail.participants[0].image, Some(s("mia.png")));
    assert_eq!(detail.submissions.len(), 1);
    assert_eq!(detail.submissions[0].name, "P");
    assert_eq!(detail.submissions[0].members.len(), 1);
    assert_eq!(detail.submissions[0].members[0].id, "mia");
    assert_eq!(detail.submissions[0].categories.len(), 1);
    assert_eq!(detail.submissions[0].categories[0].name, "C");
    assert_eq!(detail.categories.len(), 1);
    assert_eq!(detail.categories[0].name, "C");
    assert_eq!(detail.categories[0].awards.len(), 1);
    let award = &detail.categories[0].awards[0];
    assert_eq!(award.price, 1_000_000);
    assert!(!award.is_awarded);
    let winner = award.winner.as_ref().expect("judged");
    assert_eq!(winner.id, 0);
    assert_eq!(winner.link, vec![s("https://example.org/p")]);
}

#[test]
fn detail_of_unknown_hackathon_is_not_found() {
    let ledger = staged();
    assert_eq!(ledger.get_detail_hackathon_by_id(1).err(), Some(LedgerError::NotFound));
}

#[test]
fn nested_lookups_are_absent_rather_than_failing() {
    let mut ledger = staged();
    assert!(ledger.get_hackathon_by_id(5).is_none());
    assert!(ledger.get_category_by_id(5).is_none());
    assert!(ledger.get_award_by_id(5).is_none());
    assert!(ledger.get_submission_by_id(5).is_none());
    assert!(ledger.get_member_by_id(&s("nobody")).is_none());
    let open = ledger.get_award_by_id(0).expect("stored");
    assert!(open.winner.is_none());
    // a submission may name a category that is not stored: the view leaves it out
    let r = ledger.submit_project(0, vec![0, 77], vec![s("mia")], s("P"), s("d"), s("i"), vec![], 1);
    assert_eq!(r, Ok(0));
    let json = ledger.get_submission_by_id(0).expect("stored");
    assert_eq!(json.categories.len(), 1);
    assert_eq!(json.categories[0].id, 0);
    assert_eq!(ledger.profiles_of(&vec![s("nobody"), s("olga")]).len(), 1);
    assert_eq!(ledger.records_of_categories(&vec![3, 0]).len(), 1);
    assert_eq!(ledger.awards_of(&vec![0, 3]).len(), 1);
    assert_eq!(ledger.categories_of(&vec![3]).len(), 0);
    assert_eq!(ledger.submissions_of(&vec![0, 0]).len(), 2);
}

#[test]
fn all_hackathons_come_with_their_totals() {
    let mut ledger = staged();
    assert_eq!(ledger.add_hackathon(s("mia"), payload("second")), Ok(1));
    let all = ledger.get_all_hackathons();
    assert_eq!(all.len(), 2);
    let first = all[0].as_ref().expect("present");
    assert_eq!(first.hackathon.id, 0);
    assert_eq!(first.hackathon.owner, "olga");
    assert_eq!(first.hackathon.tags, vec![s("rust"), s("web")]);
    assert_eq!(first.total_prize, 1_000_000);
    let second = all[1].as_ref().expect("present");
    assert_eq!(second.hackathon.name, "second");
    assert_eq!(second.total_prize, 0);
}

#[test]
fn user_information_lists_created_and_joined() {
    let mut ledger = staged();
    assert_eq!(ledger.add_hackathon(s("mia"), payload("second")), Ok(1));
    let mia = ledger.get_user_information_by_id(&s("mia")).expect("member");
    assert_eq!(mia.id, "mia");
    assert_eq!(mia.bio, Some(s("builder")));
    assert_eq!(mia.joined_hackathons.len(), 1);
    assert_eq!(mia.joined_hackathons[0].hackathon.id, 0);
    assert_eq!(mia.joined_hackathons[0].total_prize, 1_000_000);
    assert_eq!(mia.created_hackathons.len(), 1);
    assert_eq!(mia.created_hackathons[0].hackathon.id, 1);
    assert_eq!(mia.created_hackathons[0].total_prize, 0);
    assert!(ledger.get_user_information_by_id(&s("nobody")).is_none());
    assert_eq!(ledger.hackathons_with_totals(&vec![1, 9, 0]).len(), 2);
}

#[test]
fn record_constructors_start_empty() {
    let m = Member::new(&s("ann"), s("Ann"), None, Some(s("bio")));
    assert_eq!(m.id, "ann");
    assert_eq!(m.name, "Ann");
    assert_eq!(m.image, None);
    assert_eq!(m.bio, Some(s("bio")));
    assert!(m.joined_hackathons.is_empty() && m.created_hackathons.is_empty());
    let copy = m.copy();
    assert_eq!(copy.id, "ann");
    assert_eq!(m.profile().copy().name, "Ann");

    let c = hackathon_ledger::Category::new(4, s("web"));
    assert_eq!((c.id, c.name.as_str(), c.awards.len()), (4, "web", 0));
    assert_eq!(c.copy().id, 4);

    let a = hackathon_ledger::Award::new(2, s("gold"), 77);
    assert_eq!((a.id, a.name.as_str(), a.price, a.winner, a.is_awarded), (2, "gold", 77, None, false));

    let h = Hackathon::new(3, s("olga"), payload("H"));
    assert_eq!(h.id, 3);
    assert_eq!(h.owner, "olga");
    assert!(h.participants_list.is_empty() && h.categories_list.is_empty());

    let sub = hackathon_ledger::Submission::new(1, vec![2], vec![s("a")], s("n"), s("d"), s("i"), vec![], 9);
    assert_eq!((sub.id, sub.time), (1, 9));
    assert_eq!(sub.members, vec![s("a")]);
}

#[test]
fn list_helpers() {
    assert_eq!(copy_ids(&vec![3, 1, 2]), vec![3, 1, 2]);
    assert_eq!(copy_texts(&vec![s("a"), s("b")]), vec![s("a"), s("b")]);
    assert_eq!(copy_opt_text(&Some(s("x"))), Some(s("x")));
    assert_eq!(copy_opt_text(&None), None);
    assert!(contains_name(&vec![s("a"), s("b")], &s("b")));
    assert!(!contains_name(&vec![s("a"), s("b")], &s("c")));
    assert!(contains_id(&vec![1, 2], 2));
    assert!(!contains_id(&vec![1, 2], 3));
}

#[test]
fn error_messages_differ() {
    let all = [
        LedgerError::NotFound,
        LedgerError::Unauthorized,
        LedgerError::InvalidState,
        LedgerError::InvalidInput,
        LedgerError::PaymentMismatch,
    ];
    for (i, a) in all.iter().enumerate() {
        for b in all.iter().skip(i + 1) {
            assert_ne!(a.message(), b.message());
        }
    }
    assert_eq!(LedgerError::NotFound.message(), "record not found");
}

#[test]
fn deciding_a_payment_does_not_make_it() {
    let mut ledger = staged();
    assert_eq!(submit(&mut ledger, vec![s("mia")]), Ok(0));
    assert_eq!(ledger.judge_winner(&s("olga"), 0, 0, 0, 0), Ok(()));
    let asked = ledger.payout_for(&s("olga"), 0, 0, 0, 1_000_000).ok().expect("accepted");
    assert_eq!(asked.recipient, "mia");
    assert_eq!(asked.amount, 1_000_000);
    assert!(!ledger.awards[0].is_awarded);
    assert_eq!(ledger.payout_for(&s("olga"), 0, 0, 0, 1).err(), Some(LedgerError::PaymentMismatch));
    assert_eq!(ledger.payout_for(&s("mia"), 0, 0, 0, 1_000_000).err(), Some(LedgerError::Unauthorized));
    let paid = ledger.award_winner(&s("olga"), 0, 0, 0, 1_000_000).ok().expect("accepted");
    assert_eq!(paid.recipient, asked.recipient);
    assert_eq!(paid.amount, asked.amount);
    assert_eq!(ledger.payout_for(&s("olga"), 0, 0, 0, 1_000_000).err(), Some(LedgerError::InvalidState));
}

#[test]
fn totals_in_range_tells_whether_every_total_fits() {
    let mut ledger = staged();
    assert!(ledger.totals_in_range());
    assert_eq!(ledger.add_award(&s("olga"), 0, 0, s("huge"), u128::MAX), Ok(1));
    assert!(!ledger.totals_in_range());
}

#[test]
fn winner_and_payment_are_never_undone() {
    let mut ledger = staged();
    assert_eq!(submit(&mut ledger, vec![s("mia")]), Ok(0));
    assert_eq!(submit(&mut ledger, vec![s("mia")]), Ok(1));
    assert_eq!(ledger.judge_winner(&s("olga"), 0, 0, 0, 1), Ok(()));
    assert!(ledger.award_winner(&s("olga"), 0, 0, 0, 1_000_000).is_ok());
    // every further operation leaves the award judged for submission 1 and paid
    assert_eq!(ledger.judge_winner(&s("olga"), 0, 0, 0, 0), Err(LedgerError::InvalidState));
    assert!(ledger.award_winner(&s("olga"), 0, 0, 0, 1_000_000).is_err());
    ledger.add_member(s("zoe"), s("Zoe"), None, None);
    assert_eq!(ledger.join_hackathon(s("zoe"), 0), Ok(()));
    assert_eq!(ledger.add_award(&s("olga"), 0, 0, s("A2"), 1), Ok(1));
    assert!(ledger.update_member(&s("zoe"), None, None, None).is_ok());
    assert_eq!(ledger.awards[0].winner, Some(1));
    assert!(ledger.awards[0].is_awarded);
    assert_eq!(ledger.awards[0].price, 1_000_000);
}

#[test]
fn detail_leaves_out_what_is_not_stored() {
    let mut ledger = staged();
    assert_eq!(submit(&mut ledger, vec![s("mia")]), Ok(0));
    // a ledger whose lists name records that are not stored
    ledger.hackathons[0].participants_list.push(s("ghost"));
    ledger.hackathons[0].categories_list.push(40);
    ledger.hackathons[0].submissions_list.push(41);
    ledger.categories[0].awards.push(42);
    assert!(!ledger.is_wf());
    let detail = ledger.get_detail_hackathon_by_id(0).ok().expect("stored");
    assert_eq!(detail.participants.len(), 1);
    assert_eq!(detail.participants[0].id, "mia");
    assert_eq!(detail.categories.len(), 1);
    assert_eq!(detail.categories[0].id, 0);
    assert_eq!(detail.categories[0].awards.len(), 1);
    assert_eq!(detail.categories[0].awards[0].id, 0);
    assert_eq!(detail.submissions.len(), 1);
    assert_eq!(detail.submissions[0].id, 0);
    assert_eq!(ledger.get_total_prize(&ledger.hackathons[0]), 1_000_000);
}

#[test]
fn invariant_check_accepts_what_the_operations_build() {
    let mut ledger = HackathonContract::init();
    assert!(ledger.is_wf());
    ledger = staged();
    assert!(ledger.is_wf());
    assert_eq!(submit(&mut ledger, vec![s("mia")]), Ok(0));
    assert_eq!(ledger.judge_winner(&s("olga"), 0, 0, 0, 0), Ok(()));
    assert!(ledger.award_winner(&s("olga"), 0, 0, 0, 1_000_000).is_ok());
    assert!(ledger.is_wf());
    assert!(ledger.ids_ok() && ledger.refs_ok() && ledger.roles_ok());
}

#[test]
fn invariant_check_refuses_each_kind_of_fault() {
    let mut l = staged();
    l.next_award_id = 7;
    assert!(!l.ids_ok() && !l.is_wf());

    let mut l = staged();
    l.categories[0].id = 3;
    assert!(!l.ids_ok() && !l.is_wf());

    let mut l = staged();
    l.awards[0].winner = Some(0);
    assert!(!l.refs_ok() && !l.is_wf());

    let mut l = staged();
    l.members[1].joined_hackathons.push(9);
    assert!(!l.refs_ok() && !l.is_wf());

    let mut l = staged();
    l.awards[0].is_awarded = true;
    assert!(!l.roles_ok() && !l.is_wf());

    let mut l = staged();
    l.hackathons[0].participants_list.push(s("olga"));
    assert!(!l.roles_ok() && !l.is_wf());

    let mut l = staged();
    l.hackathons[0].participants_list.push(s("mia"));
    assert!(!l.roles_ok() && !l.is_wf());

    let mut l = staged();
    l.hackathons[0].owner = s("ghost");
    assert!(!l.roles_ok() && !l.is_wf());

    let mut l = staged();
    l.members[1].id = s("olga");
    assert!(!l.distinct_members() && !l.roles_ok() && !l.is_wf());
}

#[test]
fn invariant_helpers() {
    assert!(all_below(&vec![0, 1, 2], 3));
    assert!(!all_below(&vec![0, 3], 3));
    assert!(all_below(&vec![], 0));
    assert!(distinct_names(&vec![s("a"), s("b"), s("c")]));
    assert!(!distinct_names(&vec![s("a"), s("b"), s("a")]));
    let ledger = staged();
    assert!(ledger.all_members(&vec![s("mia"), s("olga")]));
    assert!(!ledger.all_members(&vec![s("mia"), s("ghost")]));
    assert!(ledger.distinct_members());
}
