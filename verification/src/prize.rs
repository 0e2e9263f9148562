use vstd::prelude::*;
use crate::award::Award;
use crate::category::Category;
use crate::contract::HackathonContract;
use crate::hackathon::Hackathon;

verus! {

/// The prize of award `id`, or zero where no such award is stored.
pub open spec fn award_price(awards: Seq<Award>, id: u64) -> nat {
    if id < awards.len() {
        awards[id as int].price as nat
    } else {
        0
    }
}

/// The sum of the prizes of the awards listed in `ids`.
pub open spec fn awards_total(awards: Seq<Award>, ids: Seq<u64>) -> nat
    decreases ids.len(),
{
    if ids.len() == 0 {
        0
    } else {
        awards_total(awards, ids.drop_last()) + award_price(awards, ids.last())
    }
}

/// The sum of the prizes of category `id`, or zero where no such category is stored.
pub open spec fn category_total(categories: Seq<Category>, awards: Seq<Award>, id: u64) -> nat {
    if id < categories.len() {
        awards_total(awards, categories[id as int].awards@)
    } else {
        0
    }
}

/// The sum of the prizes of the categories listed in `ids`.
pub open spec fn categories_total(categories: Seq<Category>, awards: Seq<Award>, ids: Seq<u64>) -> nat
    decreases ids.len(),
{
    if ids.len() == 0 {
        0
    } else {
        categories_total(categories, awards, ids.drop_last()) + category_total(
            categories,
            awards,
            ids.last(),
        )
    }
}

/// The sum over a prefix is the sum over the prefix one shorter plus one award,
/// and no more than the sum over the whole list.
pub proof fn lemma_awards_total_prefix(awards: Seq<Award>, ids: Seq<u64>, n: int)
    requires
        0 <= n < ids.len(),
    ensures
        awards_total(awards, ids.take(n + 1)) == awards_total(awards, ids.take(n)) + award_price(
            awards,
            ids[n],
        ),
        awards_total(awards, ids.take(n + 1)) <= awards_total(awards, ids),
    decreases ids.len(),
{
    assert(ids.take(n + 1).drop_last() =~= ids.take(n));
    if n + 1 == ids.len() {
        assert(ids.take(n + 1) =~= ids);
    } else {
        assert(ids.drop_last().take(n + 1) =~= ids.take(n + 1));
        lemma_awards_total_prefix(awards, ids.drop_last(), n);
    }
}

/// The same for a list of categories.
pub proof fn lemma_categories_total_prefix(
    categories: Seq<Category>,
    awards: Seq<Award>,
    ids: Seq<u64>,
    n: int,
)
    requires
        0 <= n < ids.len(),
    ensures
        categories_total(categories, awards, ids.take(n + 1)) == categories_total(
            categories,
            awards,
            ids.take(n),
        ) + category_total(categories, awards, ids[n]),
        categories_total(categories, awards, ids.take(n + 1)) <= categories_total(
            categories,
            awards,
            ids,
        ),
    decreases ids.len(),
{
    assert(ids.take(n + 1).drop_last() =~= ids.take(n));
    if n + 1 == ids.len() {
        assert(ids.take(n + 1) =~= ids);
    } else {
        assert(ids.drop_last().take(n + 1) =~= ids.take(n + 1));
        lemma_categories_total_prefix(categories, awards, ids.drop_last(), n);
    }
}

impl HackathonContract {
    /// The sum of the prizes of all awards reachable through the hackathon's
    /// categories. A category or award that is not stored counts as zero.
    pub open spec fn total_prize(&self, hackathon: &Hackathon) -> nat {
        categories_total(self.categories@, self.awards@, hackathon.categories_list@)
    }

    /// The total prize of every stored hackathon fits the prize type.
    pub open spec fn totals_fit(&self) -> bool {
        forall|i: int|
            0 <= i < self.hackathons@.len() ==> self.total_prize(&#[trigger] self.hackathons@[i])
                <= u128::MAX
    }

    /// The sum of the prizes of the listed awards, or `None` where it exceeds
    /// the prize type.
    pub fn sum_awards(&self, ids: &Vec<u64>) -> (sum: Option<u128>)
        ensures
            sum == (if awards_total(self.awards@, ids@) <= u128::MAX {
                Some(awards_total(self.awards@, ids@) as u128)
            } else {
                None
            }),
    {
        let mut total: u128 = 0;
        let mut k: usize = 0;
        while k < ids.len()
            invariant
                k <= ids@.len(),
                total == awards_total(self.awards@, ids@.take(k as int)),
            decreases ids@.len() - k,
        {
            proof {
                lemma_awards_total_prefix(self.awards@, ids@, k as int);
            }
            let id: u64 = ids[k];
            if id < self.awards.len() as u64 {
                match total.checked_add(self.awards[id as usize].price) {
                    Some(t) => {
                        total = t;
                    },
                    None => {
                        return None;
                    },
                }
            }
            k += 1;
        }
        assert(ids@.take(ids@.len() as int) =~= ids@);
        Some(total)
    }

    /// The hackathon's total prize, or `None` where it exceeds the prize type.
    pub fn checked_total_prize(&self, hackathon: &Hackathon) -> (total: Option<u128>)
        ensures
            total == (if self.total_prize(hackathon) <= u128::MAX {
                Some(self.total_prize(hackathon) as u128)
            } else {
                None
            }),
    {
        let ids = &hackathon.categories_list;
        let mut total: u128 = 0;
        let mut k: usize = 0;
        while k < ids.len()
            invariant
                k <= ids@.len(),
                ids@ == hackathon.categories_list@,
                total == categories_total(self.categories@, self.awards@, ids@.take(k as int)),
            decreases ids@.len() - k,
        {
            proof {
                lemma_categories_total_prefix(self.categories@, self.awards@, ids@, k as int);
            }
            let id: u64 = ids[k];
            if id < self.categories.len() as u64 {
                let part = match self.sum_awards(&self.categories[id as usize].awards) {
                    Some(p) => p,
                    None => {
                        return None;
                    },
                };
                match total.checked_add(part) {
                    Some(t) => {
                        total = t;
                    },
                    None => {
                        return None;
                    },
                }
            }
            k += 1;
        }
        assert(ids@.take(ids@.len() as int) =~= ids@);
        Some(total)
    }

    /// Whether the total prize of every stored hackathon fits the prize type.
    pub fn totals_in_range(&self) -> (yes: bool)
        ensures
            yes == self.totals_fit(),
    {
        let mut k: usize = 0;
        while k < self.hackathons.len()
            invariant
                k <= self.hackathons@.len(),
                forall|i: int|
                    0 <= i < k ==> self.total_prize(&#[trigger] self.hackathons@[i]) <= u128::MAX,
            decreases self.hackathons@.len() - k,
        {
            if self.checked_total_prize(&self.hackathons[k]).is_none() {
                return false;
            }
            k += 1;
        }
        true
    }

    /// The hackathon's total prize.
    pub fn get_total_prize(&self, hackathon: &Hackathon) -> (total: u128)
        requires
            self.total_prize(hackathon) <= u128::MAX,
        ensures
            total == self.total_prize(hackathon),
    {
        match self.checked_total_prize(hackathon) {
            Some(total) => total,
            None => 0,
        }
    }
}

} // verus!
