use etib::handlefile::file::{asset_file_name, sanitize_filename};
use etib::handlefile::folder::should_register_project_folder;
use etib::json::assets::{
    add_asset, add_category_to_asset, add_project_to_asset, asset_path_known, default_assets,
    remove_asset, update_asset_category_and_project,
};
use etib::json::categories::{add_category, default_categories, get_category_by_id, remove_category};
use etib::json::list::{contains_name, max_id_of, position_by_id, position_by_name};
use etib::json::manager;
use etib::json::model::{Asset, AssetCategory, Project};
use etib::json::projects::{add_project, default_projects, get_project_by_id, remove_project};

#[test]
fn test_asset_lifecycle() {
    let mut assets: Vec<Asset> = Vec::new();
    add_asset(&mut assets, "Hero Character", "assets/projet1/Hero.aaa");
    add_asset(&mut assets, "Villain Character", "assets/projet1/Villain.aaa");
    assert_eq!(assets.len(), 2);
    remove_asset(&mut assets, "Hero Character");
    assert_eq!(assets.len(), 1);
    assert_eq!(assets[0].name, "Villain Character");
}

#[test]
fn test_link_category_to_asset() {
    let mut assets: Vec<Asset> = Vec::new();
    add_asset(&mut assets, "Mur de briques", "assets/projet1/Mur.aaa");
    let cat = AssetCategory { id: 100, name: "Matériaux".to_string() };
    assert!(add_category_to_asset(&mut assets, "Mur de briques", cat));
    assert!(!assets.is_empty(), "La liste d'assets ne devrait pas être vide");
    let mon_asset = &assets[0];
    assert_eq!(mon_asset.name, "Mur de briques");
    assert_eq!(mon_asset.category_id.len(), 1);
    assert_eq!(mon_asset.category_id[0].id, 100);
}

#[test]
fn test_add_projet_to_asset() {
    let mut assets: Vec<Asset> = Vec::new();
    add_asset(&mut assets, "Texture de sol", "assets/projet2/Sol.aaa");
    let proj = Project { id: 200, name: "Projet Alpha".to_string() };
    let paths = add_project_to_asset(&mut assets, "Texture de sol", proj.clone(), "assets_root").unwrap();
    assert_eq!(paths, ("assets/projet2/Sol.aaa".to_string(), "Projet Alpha/Sol.aaa".to_string()));
    assert_eq!(assets[0].path, "Projet Alpha/Sol.aaa");
    assert_eq!(assets[0].project_id.len(), 1);
    assert_eq!(assets[0].project_id[0].id, 200);
    assert_eq!(
        add_project_to_asset(&mut assets, "Inconnu", proj, "assets_root"),
        Err("Asset introuvable".to_string())
    );
}

#[test]
fn project_path_takes_file_name_of_old_path() {
    let mut assets: Vec<Asset> = Vec::new();
    add_asset(&mut assets, "a", "all/./sub/a.model/");
    add_asset(&mut assets, "b", "all/..");
    add_asset(&mut assets, "c", "x.aaa");
    let proj = Project { id: 1, name: "P/".to_string() };
    let paths = add_project_to_asset(&mut assets, "a", proj.clone(), "root").unwrap();
    assert_eq!(paths.1, "P/a.model");
    assert_eq!(
        add_project_to_asset(&mut assets, "b", proj.clone(), "root"),
        Err("Nom de fichier invalide".to_string())
    );
    assert_eq!(assets[1].path, "all/..");
    assert!(assets[1].project_id.is_empty());
    let empty = Project { id: 2, name: String::new() };
    assert_eq!(add_project_to_asset(&mut assets, "c", empty, "root").unwrap().1, "x.aaa");
}

#[test]
fn project_path_of_a_path_without_file_name_uses_the_root_folder() {
    let mut assets: Vec<Asset> = Vec::new();
    add_asset(&mut assets, "e", "");
    add_asset(&mut assets, "d", ".");
    add_asset(&mut assets, "abs", "/data/z.model");
    let proj = Project { id: 3, name: "P".to_string() };
    assert_eq!(
        add_project_to_asset(&mut assets, "e", proj.clone(), "/srv/assets").unwrap(),
        (String::new(), "P/assets".to_string())
    );
    assert_eq!(add_project_to_asset(&mut assets, "d", proj.clone(), "/srv/assets/").unwrap().1, "P/assets");
    assert_eq!(add_project_to_asset(&mut assets, "abs", proj.clone(), "/srv/assets").unwrap().1, "P/z.model");
    assert_eq!(
        add_project_to_asset(&mut assets, "abs", proj, "/"),
        Ok(("P/z.model".to_string(), "P/z.model".to_string()))
    );
}

#[test]
fn add_asset_takes_next_id_after_largest() {
    let mut assets: Vec<Asset> = Vec::new();
    add_asset(&mut assets, "a", "p/a.aaa");
    assert_eq!(assets[0].id, 1);
    assets[0].id = 41;
    add_asset(&mut assets, "b", "p/b.aaa");
    assert_eq!(assets[1].id, 42);
    assert_eq!(max_id_of(&assets), 42);
    assert!(assets[1].category_id.is_empty());
    assert!(assets[1].project_id.is_empty());
}

#[test]
fn add_category_to_missing_asset_changes_nothing() {
    let mut assets = default_assets();
    let cat = AssetCategory::new(1, "Textures");
    assert!(!add_category_to_asset(&mut assets, "absent", cat));
    assert!(assets[0].category_id.is_empty());
}

#[test]
fn update_category_and_project_by_id() {
    let mut assets: Vec<Asset> = Vec::new();
    add_asset(&mut assets, "a", "p/a.aaa");
    add_asset(&mut assets, "b", "p/b.aaa");
    let ok = update_asset_category_and_project(
        &mut assets,
        2,
        AssetCategory::new(5, "Sons"),
        Project::new(7, "Jeu"),
    );
    assert!(ok);
    assert!(assets[0].category_id.is_empty());
    assert_eq!(assets[1].category_id[0].name, "Sons");
    assert_eq!(assets[1].project_id[0].name, "Jeu");
    let missing = update_asset_category_and_project(
        &mut assets,
        99,
        AssetCategory::new(5, "Sons"),
        Project::new(7, "Jeu"),
    );
    assert!(!missing);
}

#[test]
fn asset_paths_are_recognised() {
    let assets = default_assets();
    assert_eq!(assets[0].name, "Exemple Asset");
    assert!(asset_path_known(&assets, "assets/Exemple/Exemple.aaa"));
    assert!(!asset_path_known(&assets, "assets/Exemple/Autre.aaa"));
}

#[test]
fn test_add_category() {
    let mut cats: Vec<AssetCategory> = default_categories();
    add_category(&mut cats, "Textures").unwrap();
    add_category(&mut cats, "Modèles 3D").unwrap();
    assert_eq!(cats.len(), 2);
    assert_eq!(cats[0].name, "Textures");
    assert_eq!(cats[1].id, 2);
}

#[test]
fn add_category_twice_is_refused() {
    let mut cats: Vec<AssetCategory> = Vec::new();
    add_category(&mut cats, "Textures").unwrap();
    let err = add_category(&mut cats, "Textures").unwrap_err();
    assert_eq!(err, "La catégorie 'Textures' existe déjà.");
    assert_eq!(cats.len(), 1);
}

#[test]
fn test_remove_category() {
    let mut cats: Vec<AssetCategory> = Vec::new();
    add_category(&mut cats, "A Supprimer").unwrap();
    remove_category(&mut cats, "A Supprimer");
    assert!(cats.is_empty(), "La liste devrait être vide après suppression");
}

#[test]
fn category_lookup_by_id() {
    let mut cats: Vec<AssetCategory> = Vec::new();
    add_category(&mut cats, "Textures").unwrap();
    add_category(&mut cats, "Sons").unwrap();
    assert_eq!(get_category_by_id(&cats, 2).unwrap().name, "Sons");
    assert!(get_category_by_id(&cats, 3).is_none());
}

#[test]
fn test_add_and_get_project() {
    let mut projects: Vec<Project> = Vec::new();
    add_project(&mut projects, "Projet Alpha").unwrap();
    assert_eq!(projects.len(), 1);
    assert_eq!(projects[0].name, "Projet Alpha");
    assert_eq!(projects[0].id, 1);
    let found = get_project_by_id(&projects, 1).unwrap();
    assert_eq!(found.name, "Projet Alpha");
}

#[test]
fn projects_test_remove_project() {
    let mut projects: Vec<Project> = Vec::new();
    add_project(&mut projects, "Projet A").unwrap();
    add_project(&mut projects, "Projet B").unwrap();
    remove_project(&mut projects, "Projet A");
    assert_eq!(projects.len(), 1);
    assert_eq!(projects[0].name, "Projet B");
}

#[test]
fn add_project_twice_is_refused() {
    let mut projects: Vec<Project> = Vec::new();
    add_project(&mut projects, "Projet A").unwrap();
    assert_eq!(
        add_project(&mut projects, "Projet A"),
        Err("Le projet 'Projet A' existe déjà.".to_string())
    );
    assert_eq!(projects.len(), 1);
}

#[test]
fn remove_project_removes_every_match() {
    let mut projects = vec![
        Project::new(1, "x"),
        Project::new(2, "y"),
        Project::new(3, "x"),
    ];
    remove_project(&mut projects, "x");
    assert_eq!(projects.len(), 1);
    assert_eq!(projects[0].id, 2);
    remove_project(&mut projects, "absent");
    assert_eq!(projects.len(), 1);
}

#[test]
fn test_init() {
    let projects = default_projects();
    assert_eq!(projects.len(), 1);
    assert_eq!(projects[0].name, "Mon Premier Projet");
    assert_eq!(projects[0].id, 1);
}

#[test]
fn test_create_base_json() {
    let projets = manager::base_projects();
    assert_eq!(projets.len(), 2, "Il devrait y avoir 2 projets de base");
    assert_eq!(projets[0].name, "Projet 1");
}

#[test]
fn test_add_project() {
    let mut projets = manager::base_projects();
    manager::add_project(&mut projets, 3, "Projet Test");
    assert_eq!(projets.len(), 3, "Il devrait y avoir 3 projets maintenant");
    assert_eq!(projets[2].name, "Projet Test");
    assert_eq!(projets[2].id, 3);
}

#[test]
fn manager_test_remove_project() {
    let mut projets = manager::base_projects();
    manager::remove_project(&mut projets, "Projet 1");
    assert_eq!(projets.len(), 1, "Il ne devrait rester qu'un seul projet");
    assert_eq!(projets[0].name, "Projet 2", "C'est le Projet 2 qui devrait rester");
}

#[test]
fn list_positions() {
    let projects = vec![Project::new(4, "a"), Project::new(9, "b"), Project::new(9, "c")];
    assert_eq!(position_by_id(&projects, 9), Some(1));
    assert_eq!(position_by_id(&projects, 5), None);
    assert_eq!(position_by_name(&projects, "c"), Some(2));
    assert!(contains_name(&projects, "a"));
    assert!(!contains_name(&projects, "z"));
    assert_eq!(max_id_of(&projects), 9);
}

#[test]
fn test_create_asset_file() {
    assert_eq!(asset_file_name(&sanitize_filename("TestAsset")), "TestAsset.model");
    assert_eq!(asset_file_name("Rock.aaa"), "Rock.aaa");
    assert_eq!(asset_file_name("aaa"), "aaa.model");
}

#[test]
fn sanitize_replaces_and_trims() {
    assert_eq!(sanitize_filename("  a/b:c*d?e\"f<g>h|i\\j  "), "a_b_c_d_e_f_g_h_i_j");
    assert_eq!(sanitize_filename("\t\u{3000}nom\u{a0}\n"), "nom");
    assert_eq!(sanitize_filename("   "), "");
    assert_eq!(sanitize_filename(" / "), "_");
    assert_eq!(sanitize_filename("é à"), "é à");
}

#[test]
fn test_sync_local_projects() {
    let projects = vec![Project::new(1, "ProjetA")];
    assert!(!should_register_project_folder(&projects, "ProjetA"));
    assert!(should_register_project_folder(&projects, "ProjetB"));
    assert!(!should_register_project_folder(&projects, "all"));
}
