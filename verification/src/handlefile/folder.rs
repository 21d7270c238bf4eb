//! Project folders found on disk.
use vstd::prelude::*;
use crate::json::model::Project;
use crate::json::list::{has_name, contains_name};
use crate::text::str_eq;

verus! {

/// Whether a folder found in the assets root should be added to the project
/// list: it is not the shared `all` folder and no project has its name yet.
pub fn should_register_project_folder(current: &Vec<Project>, folder_name: &str) -> (r: bool)
    ensures
        r == (folder_name@ != "all"@ && !has_name(current@, folder_name@)),
{
    !str_eq(folder_name, "all") && !contains_name(current, folder_name)
}

} // verus!
