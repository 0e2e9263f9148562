use vstd::prelude::*;
use crate::award::{award_json_views, AwardId, AwardJson, AwardJsonView};
use crate::text::copy_ids;

verus! {

pub type CategoryId = u64;

/// A category of a hackathon and the identifiers of its awards.
pub struct Category {
    pub id: CategoryId,
    pub name: String,
    pub awards: Vec<AwardId>,
}

/// What a `Category` holds, with its list as a sequence.
pub ghost struct CategoryView {
    pub id: CategoryId,
    pub name: String,
    pub awards: Seq<AwardId>,
}

impl View for Category {
    type V = CategoryView;

    open spec fn view(&self) -> CategoryView {
        CategoryView { id: self.id, name: self.name, awards: self.awards@ }
    }
}

impl Category {
    /// A fresh category without awards.
    pub fn new(category_id: CategoryId, name: String) -> (category: Self)
        ensures
            category@ == (CategoryView { id: category_id, name, awards: Seq::empty() }),
    {
        Category { id: category_id, name, awards: Vec::new() }
    }

    /// A copy of the record.
    pub fn copy(&self) -> (category: Self)
        ensures
            category@ == self@,
    {
        Category { id: self.id, name: self.name.clone(), awards: copy_ids(&self.awards) }
    }
}

/// A category with its awards resolved.
pub struct CategoryJson {
    pub id: CategoryId,
    pub name: String,
    pub awards: Vec<AwardJson>,
}

/// What a `CategoryJson` holds, with its list as a sequence.
pub ghost struct CategoryJsonView {
    pub id: CategoryId,
    pub name: String,
    pub awards: Seq<AwardJsonView>,
}

impl View for CategoryJson {
    type V = CategoryJsonView;

    open spec fn view(&self) -> CategoryJsonView {
        CategoryJsonView {
            id: self.id,
            name: self.name,
            awards: award_json_views(self.awards@),
        }
    }
}

/// The views of a list of category records.
pub open spec fn category_views(items: Seq<Category>) -> Seq<CategoryView> {
    Seq::new(items.len(), |i: int| items[i]@)
}

/// The views of a list of resolved categories.
pub open spec fn category_json_views(items: Seq<CategoryJson>) -> Seq<CategoryJsonView> {
    Seq::new(items.len(), |i: int| items[i]@)
}

} // verus!
