//! The first, single-file project store: the caller chooses the ids.
use vstd::prelude::*;
use crate::json::model::{Named, Project};
use crate::json::list::{without_name, retain_other_names};

verus! {

/// The two projects a fresh store is created with.
pub fn base_projects() -> (r: Vec<Project>)
    ensures
        r@.len() == 2,
        r@[0].id == 1,
        r@[0].name@ == "Projet 1"@,
        r@[1].id == 2,
        r@[1].name@ == "Projet 2"@,
{
    let mut v: Vec<Project> = Vec::new();
    v.push(Project::new(1, "Projet 1"));
    v.push(Project::new(2, "Projet 2"));
    v
}

/// Appends a project with the given id and name; nothing is checked.
pub fn add_project(items: &mut Vec<Project>, id: u32, name: &str)
    ensures
        final(items)@.len() == old(items)@.len() + 1,
        final(items)@.subrange(0, old(items)@.len() as int) == old(items)@,
        final(items)@.last().id == id,
        final(items)@.last().name@ == name@,
{
    items.push(Project::new(id, name));
    proof {
        assert(final(items)@.subrange(0, old(items)@.len() as int) =~= old(items)@);
    }
}

/// Removes every project named `name`; the others keep their order.
pub fn remove_project(items: &mut Vec<Project>, name: &str)
    ensures
        final(items)@ == without_name(old(items)@, name@),
{
    retain_other_names(items, name);
}

} // verus!
