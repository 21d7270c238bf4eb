//! The category list of the asset manager.
use vstd::prelude::*;
use crate::json::model::{Named, AssetCategory};
use crate::json::list::{
    first_with_id, has_id, has_name, max_id, next_id, without_name, lemma_max_id, max_id_of,
    position_by_id, contains_name, retain_other_names,
};

verus! {

/// The message of the error returned when a category name is already taken.
pub open spec fn category_exists_message(name: Seq<char>) -> Seq<char> {
    "La catégorie '"@ + name + "' existe déjà."@
}

/// The first category with this id, if any.
pub fn get_category_by_id(items: &Vec<AssetCategory>, id: u32) -> (r: Option<AssetCategory>)
    ensures
        r is Some <==> has_id(items@, id),
        r matches Some(p) ==> exists|i: int| first_with_id(items@, id, i) && p == items@[i],
{
    match position_by_id(items, id) {
        Some(i) => Some(items[i].clone()),
        None => None,
    }
}

/// Adds a category named `name` with the next free id (one more than the
/// largest id in the list), unless a category of that name already exists.
pub fn add_category(items: &mut Vec<AssetCategory>, name: &str) -> (r: Result<(), String>)
    requires
        !has_name(old(items)@, name@) ==> max_id(old(items)@) < u32::MAX,
    ensures
        has_name(old(items)@, name@) ==> {
            &&& r matches Err(msg) && msg@ == category_exists_message(name@)
            &&& final(items)@ == old(items)@
        },
        !has_name(old(items)@, name@) ==> {
            &&& r is Ok
            &&& final(items)@.len() == old(items)@.len() + 1
            &&& final(items)@.subrange(0, old(items)@.len() as int) == old(items)@
            &&& final(items)@.last().id == next_id(old(items)@)
            &&& final(items)@.last().name@ == name@
        },
{
    if contains_name(items, name) {
        let mut msg = "La catégorie '".to_owned();
        msg.append(name);
        msg.append("' existe déjà.");
        return Err(msg);
    }
    let next = max_id_of(items) + 1;
    items.push(AssetCategory::new(next, name));
    proof {
        assert(final(items)@.subrange(0, old(items)@.len() as int) =~= old(items)@);
    }
    Ok(())
}

/// Removes every category named `name`; the others keep their order.
pub fn remove_category(items: &mut Vec<AssetCategory>, name: &str)
    ensures
        final(items)@ == without_name(old(items)@, name@),
{
    retain_other_names(items, name);
}

/// The list a new category file starts with: no category.
pub fn default_categories() -> (r: Vec<AssetCategory>)
    ensures
        r@.len() == 0,
{
    Vec::new()
}

} // verus!
