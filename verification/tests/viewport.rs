use shiloh::viewport::{foliage_paint_seed, paint_layer_choice, prop_gltf_paths, PropSlots, ViewportTool};

#[test]
fn foliage_slots_need_loaded_meshes() {
    let none = PropSlots::default();
    assert_eq!(none.foliage_slot("Grass_Patch"), None);
    let all = PropSlots { loaded: [true; 4] };
    assert_eq!(all.foliage_slot("Grass_Patch"), Some(1));
    assert_eq!(all.foliage_slot("FERN_02"), Some(1));
    assert_eq!(all.foliage_slot("Shrub_03"), Some(0));
    assert_eq!(all.foliage_slot("Pine_Tall"), None);
    assert_eq!(all.foliage_slot("Birch"), None);
}

#[test]
fn rock_slots() {
    let all = PropSlots { loaded: [true; 4] };
    assert_eq!(all.rock_slot("Rock_09"), Some(2));
    assert_eq!(all.rock_slot("rock_scatter"), Some(3));
    assert_eq!(all.rock_slot("Large Rock"), Some(2));
    assert_eq!(all.rock_slot("Cliff_Face"), Some(3));
    assert_eq!(all.rock_slot("Pine"), None);
    let large_only = PropSlots { loaded: [false, false, true, false] };
    assert_eq!(large_only.rock_slot("Cliff_Face"), Some(2));
    assert_eq!(large_only.rock_slot("Rock_06"), None);
}

#[test]
fn prop_paths_and_tool() {
    let p = prop_gltf_paths();
    assert_eq!(p[0], (0, "shrub_03/shrub_03_1k.gltf"));
    assert_eq!(p[3], (3, "rock_06/rock_06_1k.gltf"));
    assert_eq!(ViewportTool::default(), ViewportTool::Select);
}

use shiloh::viewport::{extent_class, is_pickable, DrawBucket, ExtentClass};

#[test]
fn draw_buckets_by_name() {
    let none = PropSlots::default();
    let all = PropSlots { loaded: [true; 4] };
    assert_eq!(none.draw_bucket("WaterBody"), DrawBucket::Water);
    assert_eq!(none.draw_bucket("DirectionalLight"), DrawBucket::Marker);
    assert_eq!(none.draw_bucket("SkyAtmosphere"), DrawBucket::Marker);
    assert_eq!(none.draw_bucket("Mountain_A"), DrawBucket::Mountain);
    assert_eq!(none.draw_bucket("Terrain_Heightmap"), DrawBucket::Ground);
    assert_eq!(none.draw_bucket("Cliff_Face"), DrawBucket::Rock);
    assert_eq!(all.draw_bucket("Cliff_Face"), DrawBucket::Prop(3));
    assert_eq!(all.draw_bucket("Rock_09"), DrawBucket::Prop(2));
    assert_eq!(none.draw_bucket("Pine_Tall"), DrawBucket::Foliage);
    assert_eq!(all.draw_bucket("Pine_Tall"), DrawBucket::Foliage);
    assert_eq!(all.draw_bucket("Fern_02"), DrawBucket::Prop(1));
    assert_eq!(all.draw_bucket("Crate"), DrawBucket::Cube);
}

#[test]
fn pick_rules_by_name() {
    assert!(!is_pickable("SkyAtmosphere"));
    assert!(!is_pickable("FogVolume"));
    assert!(!is_pickable("Terrain_Heightmap"));
    assert!(is_pickable("WaterBody"));
    assert_eq!(extent_class("PointLight"), ExtentClass::Light);
    assert_eq!(extent_class("Birch"), ExtentClass::Tree);
    assert_eq!(extent_class("Grass_Patch"), ExtentClass::GroundCover);
    assert_eq!(extent_class("Shrub_03"), ExtentClass::Shrub);
    assert_eq!(extent_class("Cliff_Face"), ExtentClass::Rock);
    assert_eq!(extent_class("Mountain"), ExtentClass::Mountain);
    assert_eq!(extent_class("Terrain_Heightmap"), ExtentClass::Terrain);
    assert_eq!(extent_class("Crate"), ExtentClass::Other);
}

use shiloh::selection::{Entity, SelectMode};
use shiloh::viewport::{brush_action, click_action, uses_ray_pick, BrushAction, ClickAction};

#[test]
fn click_actions() {
    let e = Entity { index: 3, generation: 1 };
    assert_eq!(
        click_action(true, ViewportTool::Move, false, false, false, false, Some(e), true),
        ClickAction::Select { entity: e, mode: SelectMode::Replace }
    );
    assert_eq!(click_action(true, ViewportTool::Move, false, false, false, false, None, true), ClickAction::PlaceAt);
    assert_eq!(click_action(true, ViewportTool::Move, false, false, false, false, None, false), ClickAction::Nothing);
    assert_eq!(
        click_action(false, ViewportTool::Landscape, false, true, false, false, Some(e), true),
        ClickAction::Brush(BrushAction::TerrainSculpt { lower: true })
    );
    assert_eq!(
        click_action(false, ViewportTool::Landscape, true, false, false, false, None, true),
        ClickAction::Brush(BrushAction::TerrainPaint)
    );
    assert_eq!(click_action(false, ViewportTool::Foliage, false, false, false, false, None, false), ClickAction::Nothing);
    assert_eq!(
        click_action(false, ViewportTool::Select, false, false, true, false, Some(e), false),
        ClickAction::Select { entity: e, mode: SelectMode::Toggle }
    );
    assert_eq!(click_action(false, ViewportTool::Select, false, false, false, false, None, true), ClickAction::ClearSelection);
    assert_eq!(click_action(false, ViewportTool::Select, false, true, false, false, None, true), ClickAction::Nothing);
    assert_eq!(brush_action(ViewportTool::Foliage, false, true), Some(BrushAction::FoliagePaint { erase: true }));
    assert_eq!(brush_action(ViewportTool::Move, false, true), None);
    assert!(uses_ray_pick(ViewportTool::RayAccurate));
    assert!(!uses_ray_pick(ViewportTool::Select));
}

#[test]
fn paint_layer_and_foliage_seed() {
    assert_eq!(paint_layer_choice(true, 2, 0), 2);
    assert_eq!(paint_layer_choice(false, 2, 1), 1);
    assert_eq!(foliage_paint_seed(0), 1);
    assert_eq!(foliage_paint_seed(3), 3 * 0x9E37_79B9 + 1);
    assert_eq!(foliage_paint_seed(u64::MAX), 1u64.wrapping_sub(0x9E37_79B9));
}
