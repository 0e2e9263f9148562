use vstd::prelude::*;

verus! {

/// Copies a list of identifiers.
pub fn copy_ids(ids: &Vec<u64>) -> (copy: Vec<u64>)
    ensures
        copy@ == ids@,
{
    let mut copy: Vec<u64> = Vec::new();
    let mut i: usize = 0;
    while i < ids.len()
        invariant
            i <= ids@.len(),
            copy@ == ids@.take(i as int),
        decreases ids@.len() - i,
    {
        copy.push(ids[i]);
        assert(ids@.take(i as int).push(ids@[i as int]) =~= ids@.take(i + 1));
        i += 1;
    }
    assert(ids@.take(ids@.len() as int) =~= ids@);
    copy
}

/// Copies a list of strings.
pub fn copy_texts(texts: &Vec<String>) -> (copy: Vec<String>)
    ensures
        copy@ == texts@,
{
    let mut copy: Vec<String> = Vec::new();
    let mut i: usize = 0;
    while i < texts.len()
        invariant
            i <= texts@.len(),
            copy@ == texts@.take(i as int),
        decreases texts@.len() - i,
    {
        copy.push(texts[i].clone());
        assert(texts@.take(i as int).push(texts@[i as int]) =~= texts@.take(i + 1));
        i += 1;
    }
    assert(texts@.take(texts@.len() as int) =~= texts@);
    copy
}

/// Copies an optional string.
pub fn copy_opt_text(text: &Option<String>) -> (copy: Option<String>)
    ensures
        copy == *text,
{
    match text {
        Some(s) => Some(s.clone()),
        None => None,
    }
}

/// Whether `who` occurs in `names`, compared by content.
pub open spec fn names_contain(names: Seq<String>, who: Seq<char>) -> bool {
    exists|i: int| 0 <= i < names.len() && (#[trigger] names[i])@ == who
}

/// Whether `who` occurs in `names`.
pub fn contains_name(names: &Vec<String>, who: &String) -> (found: bool)
    ensures
        found == names_contain(names@, who@),
{
    let mut i: usize = 0;
    while i < names.len()
        invariant
            i <= names@.len(),
            forall|j: int| 0 <= j < i ==> (#[trigger] names@[j])@ != who@,
        decreases names@.len() - i,
    {
        if names[i] == *who {
            return true;
        }
        i += 1;
    }
    false
}

/// Whether `id` occurs in `ids`.
pub fn contains_id(ids: &Vec<u64>, id: u64) -> (found: bool)
    ensures
        found == ids@.contains(id),
{
    let mut i: usize = 0;
    while i < ids.len()
        invariant
            i <= ids@.len(),
            forall|j: int| 0 <= j < i ==> ids@[j] != id,
        decreases ids@.len() - i,
    {
        if ids[i] == id {
            return true;
        }
        i += 1;
    }
    false
}

} // verus!
