//! The asset list of the asset manager.
use vstd::prelude::*;
use crate::json::model::{Asset, AssetCategory, Named, Project};
use crate::json::list::{
    first_with_id, first_with_name, has_id, has_name, max_id, next_id, without_name, max_id_of,
    position_by_id, position_by_name, retain_other_names,
};
use crate::text::str_eq;
use crate::handlefile::path::{file_name, file_name_of, join, join_path, joined, path_join};

verus! {

/// The message of the error returned when no asset has the requested name.
pub open spec fn asset_not_found_message() -> Seq<char> {
    "Asset introuvable"@
}

/// `new` is `old` with the category of asset `i` replaced by `category` alone.
pub open spec fn category_set(old: Asset, new: Asset, category: AssetCategory) -> bool {
    &&& new.id == old.id
    &&& new.name@ == old.name@
    &&& new.path@ == old.path@
    &&& new.project_id@ == old.project_id@
    &&& new.category_id@ == seq![category]
}

/// `new` is `old` filed under `project` alone, at `path`.
pub open spec fn project_set(old: Asset, new: Asset, project: Project, path: Seq<char>) -> bool {
    &&& new.id == old.id
    &&& new.name@ == old.name@
    &&& new.path@ == path
    &&& new.category_id@ == old.category_id@
    &&& new.project_id@ == seq![project]
}

/// Adds an asset named `name` stored at `asset_path`, with the next free id
/// (one more than the largest id in the list) and no category or project.
/// Names are not required to be unique.
pub fn add_asset(items: &mut Vec<Asset>, name: &str, asset_path: &str)
    requires
        max_id(old(items)@) < u32::MAX,
    ensures
        final(items)@.len() == old(items)@.len() + 1,
        final(items)@.subrange(0, old(items)@.len() as int) == old(items)@,
        final(items)@.last().id == next_id(old(items)@),
        final(items)@.last().name@ == name@,
        final(items)@.last().path@ == asset_path@,
        final(items)@.last().category_id@.len() == 0,
        final(items)@.last().project_id@.len() == 0,
{
    let next = max_id_of(items) + 1;
    items.push(Asset::new(next, name, asset_path));
    proof {
        assert(final(items)@.subrange(0, old(items)@.len() as int) =~= old(items)@);
    }
}

/// Removes every asset named `name`; the others keep their order.
pub fn remove_asset(items: &mut Vec<Asset>, name: &str)
    ensures
        final(items)@ == without_name(old(items)@, name@),
{
    retain_other_names(items, name);
}

/// Files the first asset named `asset_name` under `category` alone; returns
/// whether such an asset exists (the list is unchanged when none does).
pub fn add_category_to_asset(items: &mut Vec<Asset>, asset_name: &str, category: AssetCategory) -> (r: bool)
    ensures
        r == has_name(old(items)@, asset_name@),
        !r ==> final(items)@ == old(items)@,
        r ==> exists|i: int| {
            &&& first_with_name(old(items)@, asset_name@, i)
            &&& final(items)@.len() == old(items)@.len()
            &&& category_set(old(items)@[i], #[trigger] final(items)@[i], category)
            &&& forall|j: int| 0 <= j < old(items)@.len() && j != i ==> final(items)@[j] == old(items)@[j]
        },
{
    match position_by_name(items, asset_name) {
        Some(i) => {
            let mut cats: Vec<AssetCategory> = Vec::new();
            cats.push(category);
            items[i].category_id = cats;
            true
        },
        None => false,
    }
}

/// Files the first asset with id `asset_id` under `category` and `project`
/// alone; returns whether such an asset exists (the list is unchanged when
/// none does).
pub fn update_asset_category_and_project(
    items: &mut Vec<Asset>,
    asset_id: u32,
    category: AssetCategory,
    project: Project,
) -> (r: bool)
    ensures
        r == has_id(old(items)@, asset_id),
        !r ==> final(items)@ == old(items)@,
        r ==> exists|i: int| {
            &&& first_with_id(old(items)@, asset_id, i)
            &&& final(items)@.len() == old(items)@.len()
            &&& (#[trigger] final(items)@[i]).id == old(items)@[i].id
            &&& final(items)@[i].name@ == old(items)@[i].name@
            &&& final(items)@[i].path@ == old(items)@[i].path@
            &&& final(items)@[i].category_id@ == seq![category]
            &&& final(items)@[i].project_id@ == seq![project]
            &&& forall|j: int| 0 <= j < old(items)@.len() && j != i ==> final(items)@[j] == old(items)@[j]
        },
{
    match position_by_id(items, asset_id) {
        Some(i) => {
            let mut cats: Vec<AssetCategory> = Vec::new();
            cats.push(category);
            let mut projs: Vec<Project> = Vec::new();
            projs.push(project);
            items[i].category_id = cats;
            items[i].project_id = projs;
            true
        },
        None => false,
    }
}

/// The message of the error returned when the asset's path has no file name.
pub open spec fn invalid_file_name_message() -> Seq<char> {
    "Nom de fichier invalide"@
}

/// Files the first asset named `asset_name` under `project` alone and moves
/// it, in the list, into the project's folder: its new path is the project
/// name joined with the file name of its file, that is of its old path taken
/// from the folder `assets_root`. Returns the old and the
/// new path, so that the caller moves the file on disk. Fails with "Asset
/// introuvable" when no asset has that name, and with "Nom de fichier
/// invalide" when its path has no file name; the list is then unchanged.
pub fn add_project_to_asset(
    items: &mut Vec<Asset>,
    asset_name: &str,
    project: Project,
    assets_root: &str,
) -> (r: Result<(String, String), String>)
    ensures
        !has_name(old(items)@, asset_name@) ==> (r matches Err(msg) && msg@ == asset_not_found_message()),
        r is Err ==> final(items)@ == old(items)@,
        has_name(old(items)@, asset_name@) ==> exists|i: int| {
            &&& #[trigger] first_with_name(old(items)@, asset_name@, i)
            &&& match file_name_of(path_join(assets_root@, old(items)@[i].path@)) {
                Some(f) => {
                    &&& r matches Ok(paths)
                    &&& paths.0@ == old(items)@[i].path@
                    &&& paths.1@ == joined(project.name@, f)
                    &&& final(items)@.len() == old(items)@.len()
                    &&& project_set(old(items)@[i], final(items)@[i], project, paths.1@)
                    &&& forall|j: int| 0 <= j < old(items)@.len() && j != i ==> final(items)@[j] == old(items)@[j]
                },
                None => (r matches Err(msg) && msg@ == invalid_file_name_message()),
            }
        },
{
    match position_by_name(items, asset_name) {
        None => Err("Asset introuvable".to_owned()),
        Some(i) => {
            let old_path = items[i].path.clone();
            let full_path = join_path(assets_root, old_path.as_str());
            match file_name(full_path.as_str()) {
                None => Err("Nom de fichier invalide".to_owned()),
                Some(f) => {
                    let new_path = join(project.name.as_str(), f.as_str());
                    let mut projs: Vec<Project> = Vec::new();
                    projs.push(project);
                    items[i].path = new_path.clone();
                    items[i].project_id = projs;
                    assert(file_name_of(path_join(assets_root@, old(items)@[i as int].path@)) == Some(f@));
                    Ok((old_path, new_path))
                },
            }
        },
    }
}

/// Whether some asset of the list is stored at `path`.
pub fn asset_path_known(items: &Vec<Asset>, path: &str) -> (r: bool)
    ensures
        r == exists|i: int| 0 <= i < items@.len() && (#[trigger] items@[i]).path@ == path@,
{
    let mut i: usize = 0;
    while i < items.len()
        invariant
            i <= items.len(),
            forall|j: int| 0 <= j < i ==> (#[trigger] items@[j]).path@ != path@,
        decreases items.len() - i,
    {
        if str_eq(items[i].path.as_str(), path) {
            return true;
        }
        i = i + 1;
    }
    false
}

/// The list a new asset file starts with: one example asset.
pub fn default_assets() -> (r: Vec<Asset>)
    ensures
        r@.len() == 1,
        r@[0].id == 1,
        r@[0].name@ == "Exemple Asset"@,
        r@[0].path@ == "assets/Exemple/Exemple.aaa"@,
        r@[0].category_id@.len() == 0,
        r@[0].project_id@.len() == 0,
{
    let mut v: Vec<Asset> = Vec::new();
    v.push(Asset::new(1, "Exemple Asset", "assets/Exemple/Exemple.aaa"));
    v
}

} // verus!
