use shiloh::outliner::{
    duplicate_name, hierarchy_label, outliner_folder, outliner_is_flat, outliner_row_visible,
    scene_tab_name, should_reseed_forest_valley, OutlinerChip, OutlinerFolder,
};

#[test]
fn rows_filter_by_search_and_chip() {
    assert!(outliner_row_visible("Pine_Tall", "", None));
    assert!(outliner_row_visible("Pine_Tall", "PINE", None));
    assert!(!outliner_row_visible("Pine_Tall", "birch", None));
    assert!(outliner_row_visible("DirectionalLight", "", Some(OutlinerChip::Light)));
    assert!(outliner_row_visible("FogVolume", "", Some(OutlinerChip::Light)));
    assert!(!outliner_row_visible("FogVolume", "", Some(OutlinerChip::Mesh)));
    assert!(outliner_row_visible("Rock_09", "", Some(OutlinerChip::Mesh)));
    assert!(outliner_row_visible("WaterBody", "", Some(OutlinerChip::Water)));
    assert!(outliner_row_visible("Terrain_Heightmap", "", Some(OutlinerChip::Terrain)));
    assert!(!outliner_row_visible("Terrain_Heightmap", "water", Some(OutlinerChip::Terrain)));
}

#[test]
fn rows_go_in_folders() {
    assert_eq!(outliner_folder("DirectionalLight"), OutlinerFolder::Environment);
    assert_eq!(outliner_folder("SkyAtmosphere"), OutlinerFolder::Environment);
    assert_eq!(outliner_folder("directionallight"), OutlinerFolder::WorldObjects);
    assert_eq!(outliner_folder("WaterBody"), OutlinerFolder::Terrain);
    assert_eq!(outliner_folder("Cliff_Face"), OutlinerFolder::Terrain);
    assert_eq!(outliner_folder("Pine_Tall"), OutlinerFolder::WorldObjects);
    assert!(outliner_is_flat("a", None));
    assert!(outliner_is_flat("", Some(OutlinerChip::Water)));
    assert!(!outliner_is_flat("", None));
}

#[test]
fn labels_and_names() {
    assert_eq!(hierarchy_label(12, None), "Entity 12");
    assert_eq!(hierarchy_label(0, None), "Entity 0");
    assert_eq!(hierarchy_label(3, Some("Birch")), "Birch");
    assert_eq!(duplicate_name(Some("Rock")), "Rock_dup");
    assert_eq!(duplicate_name(None), "Entity_dup");
    assert_eq!(scene_tab_name(2), "Scene_2");
}

#[test]
fn reseed_rule() {
    let names: Vec<String> = ["A", "B", "C", "D", "E", "F", "G", "Entity 3", "entity_9"]
        .iter()
        .map(|s| s.to_string())
        .collect();
    assert!(should_reseed_forest_valley(2, "Other", &names));
    assert!(!should_reseed_forest_valley(9, "Other", &names));
    assert!(should_reseed_forest_valley(9, "Forest_Valley", &names));
    let mut more = names.clone();
    more.push("H".to_string());
    assert!(!should_reseed_forest_valley(10, "Forest_Valley", &more));
}
