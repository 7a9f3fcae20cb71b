use shiloh::world_items::{placement_height, PlacementHeight};
use shiloh::world_items::{
    builtin_world_items, project_layout_dirs, sort_assets_by_name, AssetKind, ProjectAsset,
    WorldItemCategory,
};

#[test]
fn builtin_catalog() {
    let items = builtin_world_items();
    assert_eq!(items.len(), 18);
    assert_eq!(items[0].id, "pine_tall");
    assert_eq!(items[0].spawn_name, "Pine_Tall");
    assert_eq!(items[0].category, WorldItemCategory::Foliage);
    assert_eq!(items[17].id, "spot_light");
    assert_eq!(items[17].category, WorldItemCategory::Lighting);
    assert_eq!(items.iter().filter(|i| i.category == WorldItemCategory::Props).count(), 3);
    assert_eq!(items.iter().find(|i| i.id == "rock_large").unwrap().spawn_name, "Rock_09");
}

#[test]
fn category_labels() {
    assert_eq!(WorldItemCategory::Environment.label(), "Environment");
    assert_eq!(WorldItemCategory::Terrain.label(), "Terrain");
    assert_eq!(WorldItemCategory::Foliage.label(), "Foliage");
    assert_eq!(WorldItemCategory::Props.label(), "Props");
    assert_eq!(WorldItemCategory::Lighting.label(), "Lighting");
}

#[test]
fn asset_kind_by_extension() {
    assert_eq!(AssetKind::from_extension("glb"), AssetKind::Mesh);
    assert_eq!(AssetKind::from_extension("GLTF"), AssetKind::Mesh);
    assert_eq!(AssetKind::from_extension("Fbx"), AssetKind::Mesh);
    assert_eq!(AssetKind::from_extension("png"), AssetKind::Texture);
    assert_eq!(AssetKind::from_extension("KTX2"), AssetKind::Texture);
    assert_eq!(AssetKind::from_extension("exr"), AssetKind::Texture);
    assert_eq!(AssetKind::from_extension("mat"), AssetKind::Material);
    assert_eq!(AssetKind::from_extension("json"), AssetKind::Other);
    assert_eq!(AssetKind::from_extension(""), AssetKind::Other);
    assert_eq!(AssetKind::Other.label(), "File");
    assert_eq!(AssetKind::Scene.label(), "Scene");
    assert_eq!(AssetKind::Mesh.label(), "Mesh");
}

fn asset(name: &str, tag: &str) -> ProjectAsset {
    ProjectAsset {
        name: name.to_string(),
        path: std::path::PathBuf::from(tag),
        kind: AssetKind::Other,
    }
}

#[test]
fn assets_sorted_by_name_stably() {
    let sorted = sort_assets_by_name(vec![
        asset("rock.glb", "1"),
        asset("Birch.png", "2"),
        asset("rock.glb", "3"),
        asset("ash.mat", "4"),
        asset("rock", "5"),
    ]);
    let got: Vec<(String, String)> = sorted
        .iter()
        .map(|a| (a.name.clone(), a.path.to_string_lossy().into_owned()))
        .collect();
    assert_eq!(
        got,
        vec![
            ("Birch.png".to_string(), "2".to_string()),
            ("ash.mat".to_string(), "4".to_string()),
            ("rock".to_string(), "5".to_string()),
            ("rock.glb".to_string(), "1".to_string()),
            ("rock.glb".to_string(), "3".to_string()),
        ]
    );
}

#[test]
fn layout_dirs() {
    let dirs = project_layout_dirs();
    assert_eq!(dirs.len(), 8);
    assert_eq!(dirs[0], "assets/Environment");
    assert_eq!(dirs[5], "assets/Imported");
    assert_eq!(dirs[7], "scripts/graphs");
}

use shiloh::world_items::{browser_category_tabs, click_palette_item, items_in_category};

#[test]
fn palette_filter_and_brush() {
    let items = builtin_world_items();
    let lights = items_in_category(&items, Some(WorldItemCategory::Lighting));
    assert_eq!(lights.iter().map(|i| i.id).collect::<Vec<_>>(), vec!["dir_light", "point_light", "spot_light"]);
    assert_eq!(items_in_category(&items, None).len(), 18);
    assert_eq!(browser_category_tabs()[0], WorldItemCategory::Foliage);
    assert_eq!(browser_category_tabs()[4], WorldItemCategory::Lighting);
    let birch = items[2];
    let (brush, status) = click_palette_item(None, birch);
    assert_eq!(brush.map(|b| b.id), Some("birch"));
    assert_eq!(status, "Place mode: Birch — click ground in viewport (Esc cancels)");
    let (brush, status) = click_palette_item(brush, birch);
    assert!(brush.is_none());
    assert_eq!(status, "Place mode cancelled");
    let (brush, _) = click_palette_item(Some(items[0]), birch);
    assert_eq!(brush.map(|b| b.id), Some("birch"));
}

#[test]
fn placement_heights_by_name() {
    assert_eq!(placement_height("DirectionalLight"), PlacementHeight::DirectionalLight);
    assert_eq!(placement_height("SpotLight"), PlacementHeight::SpotLight);
    assert_eq!(placement_height("PointLight"), PlacementHeight::Light);
    assert_eq!(placement_height("VolumetricFog"), PlacementHeight::Fog);
    assert_eq!(placement_height("SkyAtmosphere"), PlacementHeight::Sky);
    assert_eq!(placement_height("WaterPlane"), PlacementHeight::Water);
    assert_eq!(placement_height("Pine"), PlacementHeight::Ground);
    // "light" wins over "fog" and "water".
    assert_eq!(placement_height("fog light"), PlacementHeight::Light);
}

#[test]
fn asset_kind_ignores_case() {
    for ext in ["glb", "PNG", "Jpeg", "mat", "KTX2", "json", "scene", ""] {
        let k = AssetKind::from_extension(ext);
        assert_eq!(AssetKind::from_extension(&ext.to_ascii_uppercase()), k);
        assert_eq!(AssetKind::from_extension(&ext.to_ascii_lowercase()), k);
        assert_ne!(k, AssetKind::Scene);
    }
}

#[test]
fn picking_drops_placement_brush() {
    let item = builtin_world_items()[0];
    let (brush, status) = shiloh::world_items::brush_after_pick(Some(item));
    assert!(brush.is_none());
    assert_eq!(status, Some("Selected node — place mode off"));
    let (brush, status) = shiloh::world_items::brush_after_pick(None);
    assert!(brush.is_none());
    assert_eq!(status, None);
}
