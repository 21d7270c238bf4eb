use vstd::prelude::*;

verus! {

/// Records of the asset manager that carry a numeric id and a name.
pub trait Named: Sized {
    spec fn spec_id(&self) -> u32;

    spec fn spec_name(&self) -> Seq<char>;

    fn id(&self) -> (r: u32)
        ensures
            r == self.spec_id(),
    ;

    fn name(&self) -> (r: &str)
        ensures
            r@ == self.spec_name(),
    ;
}

/// A project: a named folder of assets.
#[derive(Debug)]
pub struct Project {
    pub id: u32,
    pub name: String,
}

impl Project {
    /// Builds a project from its id and a copy of its name.
    pub fn new(id: u32, name: &str) -> (r: Self)
        ensures
            r.id == id,
            r.name@ == name@,
    {
        Project { id, name: name.to_owned() }
    }
}

impl Clone for Project {
    fn clone(&self) -> (r: Self)
        ensures
            r == *self,
    {
        Project { id: self.id, name: self.name.clone() }
    }
}

impl Named for Project {
    open spec fn spec_id(&self) -> u32 {
        self.id
    }

    open spec fn spec_name(&self) -> Seq<char> {
        self.name@
    }

    fn id(&self) -> (r: u32) {
        self.id
    }

    fn name(&self) -> (r: &str) {
        self.name.as_str()
    }
}

/// A category that an asset can be filed under.
#[derive(Debug)]
pub struct AssetCategory {
    pub id: u32,
    pub name: String,
}

impl AssetCategory {
    /// Builds a category from its id and a copy of its name.
    pub fn new(id: u32, name: &str) -> (r: Self)
        ensures
            r.id == id,
            r.name@ == name@,
    {
        AssetCategory { id, name: name.to_owned() }
    }
}

impl Clone for AssetCategory {
    fn clone(&self) -> (r: Self)
        ensures
            r == *self,
    {
        AssetCategory { id: self.id, name: self.name.clone() }
    }
}

impl Named for AssetCategory {
    open spec fn spec_id(&self) -> u32 {
        self.id
    }

    open spec fn spec_name(&self) -> Seq<char> {
        self.name@
    }

    fn id(&self) -> (r: u32) {
        self.id
    }

    fn name(&self) -> (r: &str) {
        self.name.as_str()
    }
}

/// An asset file known to the manager, with the category and project it is
/// filed under (each list holds at most the one last assigned).
#[derive(Debug)]
pub struct Asset {
    pub id: u32,
    pub name: String,
    pub category_id: Vec<AssetCategory>,
    pub project_id: Vec<Project>,
    pub path: String,
}

impl Asset {
    /// Builds an asset with no category and no project.
    pub fn new(id: u32, name: &str, path: &str) -> (r: Self)
        ensures
            r.id == id,
            r.name@ == name@,
            r.path@ == path@,
            r.category_id@.len() == 0,
            r.project_id@.len() == 0,
    {
        Asset {
            id,
            name: name.to_owned(),
            category_id: Vec::new(),
            project_id: Vec::new(),
            path: path.to_owned(),
        }
    }
}

impl Named for Asset {
    open spec fn spec_id(&self) -> u32 {
        self.id
    }

    open spec fn spec_name(&self) -> Seq<char> {
        self.name@
    }

    fn id(&self) -> (r: u32) {
        self.id
    }

    fn name(&self) -> (r: &str) {
        self.name.as_str()
    }
}

} // verus!
