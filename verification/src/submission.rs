use vstd::prelude::*;
use crate::category::{category_views, Category, CategoryId, CategoryView};
use crate::member::{AccountId, MemberJson};

verus! {

pub type SubmissionId = u64;

/// A point in time, as the host environment counts it.
pub type Timestamp = u64;

/// A submitted project. The first member is the designated prize recipient.
pub struct Submission {
    pub id: SubmissionId,
    pub name: String,
    pub description: String,
    pub image: String,
    pub time: Timestamp,
    pub link: Vec<String>,
    pub categories: Vec<CategoryId>,
    pub members: Vec<AccountId>,
}

impl Submission {
    /// A submission holding exactly what it is given.
    pub fn new(
        submission_id: u64,
        categories: Vec<u64>,
        members: Vec<AccountId>,
        name: String,
        description: String,
        image: String,
        link: Vec<String>,
        time: Timestamp,
    ) -> (submission: Self)
        ensures
            submission == (Submission {
                id: submission_id,
                categories,
                members,
                name,
                description,
                image,
                link,
                time,
            }),
    {
        Submission { id: submission_id, categories, members, name, description, image, link, time }
    }
}

/// A submission with its categories and members resolved.
pub struct SubmissionJson {
    pub id: SubmissionId,
    pub name: String,
    pub description: String,
    pub image: String,
    pub time: Timestamp,
    pub link: Vec<String>,
    pub categories: Vec<Category>,
    pub members: Vec<MemberJson>,
}

/// What a `SubmissionJson` holds, with its lists as sequences.
pub ghost struct SubmissionJsonView {
    pub id: SubmissionId,
    pub name: String,
    pub description: String,
    pub image: String,
    pub time: Timestamp,
    pub link: Seq<String>,
    pub categories: Seq<CategoryView>,
    pub members: Seq<MemberJson>,
}

impl View for SubmissionJson {
    type V = SubmissionJsonView;

    open spec fn view(&self) -> SubmissionJsonView {
        SubmissionJsonView {
            id: self.id,
            name: self.name,
            description: self.description,
            image: self.image,
            time: self.time,
            link: self.link@,
            categories: category_views(self.categories@),
            members: self.members@,
        }
    }
}

/// The views of a list of resolved submissions.
pub open spec fn submission_json_views(items: Seq<SubmissionJson>) -> Seq<SubmissionJsonView> {
    Seq::new(items.len(), |i: int| items[i]@)
}

} // verus!
