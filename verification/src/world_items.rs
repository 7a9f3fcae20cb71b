//! The built-in world item catalog and the project asset browser: item
//! categories, asset kinds by file extension, and assets ordered by name.

use vstd::prelude::*;

use crate::text::{
    chars_eq_str, contains_seq, lemma_lower_ignores_case, lemma_name_le_reflexive, lemma_name_le_total,
    lemma_name_le_transitive, lower, lower_chars_of, mentions, name_le, name_le_exec, push_str,
    str_eq, upper,
};

verus! {

#[derive(Debug, Clone, Copy, PartialEq, Eq, Structural)]
pub enum WorldItemCategory {
    Environment,
    Terrain,
    Foliage,
    Props,
    Lighting,
}

/// Display name of each category.
pub open spec fn category_label(c: WorldItemCategory) -> &'static str {
    match c {
        WorldItemCategory::Environment => "Environment",
        WorldItemCategory::Terrain => "Terrain",
        WorldItemCategory::Foliage => "Foliage",
        WorldItemCategory::Props => "Props",
        WorldItemCategory::Lighting => "Lighting",
    }
}

impl WorldItemCategory {
    pub fn label(self) -> (r: &'static str)
        ensures
            r@ == category_label(self)@,
    {
        match self {
            WorldItemCategory::Environment => "Environment",
            WorldItemCategory::Terrain => "Terrain",
            WorldItemCategory::Foliage => "Foliage",
            WorldItemCategory::Props => "Props",
            WorldItemCategory::Lighting => "Lighting",
        }
    }
}

/// One entry of the world item catalog.
#[derive(Debug, Clone, Copy)]
pub struct WorldItem {
    pub id: &'static str,
    pub name: &'static str,
    pub category: WorldItemCategory,
    pub description: &'static str,
    /// Suggested spawn name when the item is dropped into the scene.
    pub spawn_name: &'static str,
}

/// The built-in catalog, in browser order.
pub open spec fn builtin_items() -> Seq<WorldItem> {
    seq![
        WorldItem {
            id: "pine_tall",
            name: "Pine Tall",
            category: WorldItemCategory::Foliage,
            description: "Tall conifer for forest ridges",
            spawn_name: "Pine_Tall",
        },
        WorldItem {
            id: "pine_cluster",
            name: "Pine Cluster",
            category: WorldItemCategory::Foliage,
            description: "Grouped pines for density",
            spawn_name: "Pine_Cluster",
        },
        WorldItem {
            id: "birch",
            name: "Birch",
            category: WorldItemCategory::Foliage,
            description: "Light deciduous tree",
            spawn_name: "Birch",
        },
        WorldItem {
            id: "dead_tree",
            name: "Dead Tree",
            category: WorldItemCategory::Foliage,
            description: "Weathered trunk / silhouette",
            spawn_name: "Dead_Tree",
        },
        WorldItem {
            id: "grass_patch",
            name: "Grass Patch",
            category: WorldItemCategory::Foliage,
            description: "Ground cover scatter (Fern_02 prop when loaded)",
            spawn_name: "Grass_Patch",
        },
        WorldItem {
            id: "shrub_03",
            name: "Shrub (Poly Haven)",
            category: WorldItemCategory::Foliage,
            description: "CC0 shrub photogrammetry · shrub_03",
            spawn_name: "Shrub_03",
        },
        WorldItem {
            id: "fern_02",
            name: "Fern (Poly Haven)",
            category: WorldItemCategory::Foliage,
            description: "CC0 small fern · fern_02",
            spawn_name: "Fern_02",
        },
        WorldItem {
            id: "rock_large",
            name: "Rock Large",
            category: WorldItemCategory::Props,
            description: "Hero boulder (Rock_09 prop when loaded)",
            spawn_name: "Rock_09",
        },
        WorldItem {
            id: "rock_scatter",
            name: "Rock Scatter",
            category: WorldItemCategory::Props,
            description: "Small stone (Rock_06 prop when loaded)",
            spawn_name: "Rock_06",
        },
        WorldItem {
            id: "rock_photogrammetry",
            name: "Rock Photogrammetry",
            category: WorldItemCategory::Props,
            description: "CC0 hero rock · rock_09",
            spawn_name: "Rock_09",
        },
        WorldItem {
            id: "cliff",
            name: "Cliff Face",
            category: WorldItemCategory::Terrain,
            description: "Vertical rock wall piece",
            spawn_name: "Cliff_Face",
        },
        WorldItem {
            id: "heightmap",
            name: "Heightmap Terrain",
            category: WorldItemCategory::Terrain,
            description: "Terrain chunk placeholder (blending stub — not yet implemented)",
            spawn_name: "Terrain_Heightmap",
        },
        WorldItem {
            id: "water_body",
            name: "Water Body",
            category: WorldItemCategory::Environment,
            description: "Lake / river plane (slice water v1+)",
            spawn_name: "WaterBody",
        },
        WorldItem {
            id: "sky_atmosphere",
            name: "Sky & Atmosphere",
            category: WorldItemCategory::Environment,
            description: "Sky dome + fog volume",
            spawn_name: "SkyAtmosphere",
        },
        WorldItem {
            id: "fog_volume",
            name: "Fog Volume",
            category: WorldItemCategory::Environment,
            description: "Local atmospheric fog",
            spawn_name: "FogVolume",
        },
        WorldItem {
            id: "dir_light",
            name: "Directional Light",
            category: WorldItemCategory::Lighting,
            description: "Sun / moon key light",
            spawn_name: "DirectionalLight",
        },
        WorldItem {
            id: "point_light",
            name: "Point Light",
            category: WorldItemCategory::Lighting,
            description: "Omni local light",
            spawn_name: "PointLight",
        },
        WorldItem {
            id: "spot_light",
            name: "Spot Light",
            category: WorldItemCategory::Lighting,
            description: "Cone spotlight (slice spot path)",
            spawn_name: "SpotLight",
        },
    ]
}

/// Seed catalog of world items: trees, ground cover, rocks, terrain pieces,
/// water and sky, and lights.
pub fn builtin_world_items() -> (r: Vec<WorldItem>)
    ensures
        r@ == builtin_items(),
{
    let r = vec![
        WorldItem {
            id: "pine_tall",
            name: "Pine Tall",
            category: WorldItemCategory::Foliage,
            description: "Tall conifer for forest ridges",
            spawn_name: "Pine_Tall",
        },
        WorldItem {
            id: "pine_cluster",
            name: "Pine Cluster",
            category: WorldItemCategory::Foliage,
            description: "Grouped pines for density",
            spawn_name: "Pine_Cluster",
        },
        WorldItem {
            id: "birch",
            name: "Birch",
            category: WorldItemCategory::Foliage,
            description: "Light deciduous tree",
            spawn_name: "Birch",
        },
        WorldItem {
            id: "dead_tree",
            name: "Dead Tree",
            category: WorldItemCategory::Foliage,
            description: "Weathered trunk / silhouette",
            spawn_name: "Dead_Tree",
        },
        WorldItem {
            id: "grass_patch",
            name: "Grass Patch",
            category: WorldItemCategory::Foliage,
            description: "Ground cover scatter (Fern_02 prop when loaded)",
            spawn_name: "Grass_Patch",
        },
        WorldItem {
            id: "shrub_03",
            name: "Shrub (Poly Haven)",
            category: WorldItemCategory::Foliage,
            description: "CC0 shrub photogrammetry · shrub_03",
            spawn_name: "Shrub_03",
        },
        WorldItem {
            id: "fern_02",
            name: "Fern (Poly Haven)",
            category: WorldItemCategory::Foliage,
            description: "CC0 small fern · fern_02",
            spawn_name: "Fern_02",
        },
        WorldItem {
            id: "rock_large",
            name: "Rock Large",
            category: WorldItemCategory::Props,
            description: "Hero boulder (Rock_09 prop when loaded)",
            spawn_name: "Rock_09",
        },
        WorldItem {
            id: "rock_scatter",
            name: "Rock Scatter",
            category: WorldItemCategory::Props,
            description: "Small stone (Rock_06 prop when loaded)",
            spawn_name: "Rock_06",
        },
        WorldItem {
            id: "rock_photogrammetry",
            name: "Rock Photogrammetry",
            category: WorldItemCategory::Props,
            description: "CC0 hero rock · rock_09",
            spawn_name: "Rock_09",
        },
        WorldItem {
            id: "cliff",
            name: "Cliff Face",
            category: WorldItemCategory::Terrain,
            description: "Vertical rock wall piece",
            spawn_name: "Cliff_Face",
        },
        WorldItem {
            id: "heightmap",
            name: "Heightmap Terrain",
            category: WorldItemCategory::Terrain,
            description: "Terrain chunk placeholder (blending stub — not yet implemented)",
            spawn_name: "Terrain_Heightmap",
        },
        WorldItem {
            id: "water_body",
            name: "Water Body",
            category: WorldItemCategory::Environment,
            description: "Lake / river plane (slice water v1+)",
            spawn_name: "WaterBody",
        },
        WorldItem {
            id: "sky_atmosphere",
            name: "Sky & Atmosphere",
            category: WorldItemCategory::Environment,
            description: "Sky dome + fog volume",
            spawn_name: "SkyAtmosphere",
        },
        WorldItem {
            id: "fog_volume",
            name: "Fog Volume",
            category: WorldItemCategory::Environment,
            description: "Local atmospheric fog",
            spawn_name: "FogVolume",
        },
        WorldItem {
            id: "dir_light",
            name: "Directional Light",
            category: WorldItemCategory::Lighting,
            description: "Sun / moon key light",
            spawn_name: "DirectionalLight",
        },
        WorldItem {
            id: "point_light",
            name: "Point Light",
            category: WorldItemCategory::Lighting,
            description: "Omni local light",
            spawn_name: "PointLight",
        },
        WorldItem {
            id: "spot_light",
            name: "Spot Light",
            category: WorldItemCategory::Lighting,
            description: "Cone spotlight (slice spot path)",
            spawn_name: "SpotLight",
        },
    ];
    assert(r@ =~= builtin_items());
    r
}

// ---------------------------------------------------------------------------
// The asset browser's item palette.

/// The category tabs of the asset browser, after "All", in order.
pub open spec fn browser_categories() -> Seq<WorldItemCategory> {
    seq![
        WorldItemCategory::Foliage,
        WorldItemCategory::Props,
        WorldItemCategory::Terrain,
        WorldItemCategory::Environment,
        WorldItemCategory::Lighting,
    ]
}

/// The category tabs (see [`browser_categories`]).
pub fn browser_category_tabs() -> (r: [WorldItemCategory; 5])
    ensures
        r@ == browser_categories(),
{
    let r = [
        WorldItemCategory::Foliage,
        WorldItemCategory::Props,
        WorldItemCategory::Terrain,
        WorldItemCategory::Environment,
        WorldItemCategory::Lighting,
    ];
    assert(r@ =~= browser_categories());
    r
}

/// The items of `items` shown under the tab `filter` (all when `None`), in
/// order.
pub open spec fn shown_items(items: Seq<WorldItem>, filter: Option<WorldItemCategory>) -> Seq<WorldItem>
    decreases items.len(),
{
    if items.len() == 0 {
        Seq::empty()
    } else {
        let rest = shown_items(items.drop_last(), filter);
        let it = items.last();
        if filter is None || filter == Some(it.category) {
            rest.push(it)
        } else {
            rest
        }
    }
}

/// The items shown under the tab `filter` (see [`shown_items`]).
pub fn items_in_category(items: &Vec<WorldItem>, filter: Option<WorldItemCategory>) -> (r: Vec<WorldItem>)
    ensures
        r@ == shown_items(items@, filter),
{
    let mut out: Vec<WorldItem> = Vec::new();
    let mut i: usize = 0;
    while i < items.len()
        invariant
            i <= items@.len(),
            out@ == shown_items(items@.take(i as int), filter),
        decreases items.len() - i,
    {
        assert(items@.take(i + 1).drop_last() =~= items@.take(i as int));
        let it = items[i];
        let shown = match filter {
            Some(c) => c == it.category,
            None => true,
        };
        if shown {
            out.push(it);
        }
        i += 1;
    }
    assert(items@.take(items@.len() as int) =~= items@);
    out
}

/// Clicking a palette item: the item being placed becomes `item`, or none
/// when it already was (same id), with the status line saying which.
pub open spec fn brush_after_click(current: Option<WorldItem>, item: WorldItem) -> (Option<WorldItem>, Seq<char>) {
    match current {
        Some(c) => if c.id@ == item.id@ {
            (None, "Place mode cancelled"@)
        } else {
            (Some(item), "Place mode: "@ + item.name@ + " — click ground in viewport (Esc cancels)"@)
        },
        None => (Some(item), "Place mode: "@ + item.name@ + " — click ground in viewport (Esc cancels)"@),
    }
}

/// The placement brush and status after clicking `item` in the palette (see
/// [`brush_after_click`]).
pub fn click_palette_item(current: Option<WorldItem>, item: WorldItem) -> (r: (Option<WorldItem>, String))
    ensures
        (r.0, r.1@) == brush_after_click(current, item),
{
    let same = match current {
        Some(c) => str_eq(c.id, item.id),
        None => false,
    };
    if same {
        (None, String::from_str("Place mode cancelled"))
    } else {
        let mut status = String::from_str("Place mode: ");
        push_str(&mut status, item.name);
        push_str(&mut status, " — click ground in viewport (Esc cancels)");
        (Some(item), status)
    }
}

/// The height band a placed item is set down at.
#[derive(Debug, Clone, Copy, PartialEq, Eq, Structural)]
pub enum PlacementHeight {
    /// A directional light, high above the ground.
    DirectionalLight,
    /// A spot light.
    SpotLight,
    /// Any other light.
    Light,
    /// A fog volume, a little above the ground.
    Fog,
    /// A sky, at ground level.
    Sky,
    /// Water, just above the ground.
    Water,
    /// Everything else, on the ground.
    Ground,
}

/// The height band for an item spawned as `spawn_name`, by the first word
/// its lower-case form contains: `light` (then `directional`, `spot`),
/// `fog` or `sky`, `water`.
pub open spec fn placement_height_for(spawn_name: Seq<char>) -> PlacementHeight {
    let l = lower(spawn_name);
    if contains_seq(l, "light"@) {
        if contains_seq(l, "directional"@) {
            PlacementHeight::DirectionalLight
        } else if contains_seq(l, "spot"@) {
            PlacementHeight::SpotLight
        } else {
            PlacementHeight::Light
        }
    } else if contains_seq(l, "fog"@) || contains_seq(l, "sky"@) {
        if contains_seq(l, "fog"@) {
            PlacementHeight::Fog
        } else {
            PlacementHeight::Sky
        }
    } else if contains_seq(l, "water"@) {
        PlacementHeight::Water
    } else {
        PlacementHeight::Ground
    }
}

/// The height band for an item spawned as `spawn_name` (see
/// [`placement_height_for`]).
pub fn placement_height(spawn_name: &str) -> (h: PlacementHeight)
    ensures
        h == placement_height_for(spawn_name@),
{
    let l = lower_chars_of(spawn_name);
    if mentions(&l, "light") {
        if mentions(&l, "directional") {
            PlacementHeight::DirectionalLight
        } else if mentions(&l, "spot") {
            PlacementHeight::SpotLight
        } else {
            PlacementHeight::Light
        }
    } else if mentions(&l, "fog") || mentions(&l, "sky") {
        if mentions(&l, "fog") {
            PlacementHeight::Fog
        } else {
            PlacementHeight::Sky
        }
    } else if mentions(&l, "water") {
        PlacementHeight::Water
    } else {
        PlacementHeight::Ground
    }
}

/// Picking an existing entity in the viewport while placing drops the
/// placement brush, with a status line saying so; with no brush nothing
/// changes.
pub fn brush_after_pick(current: Option<WorldItem>) -> (r: (Option<WorldItem>, Option<&'static str>))
    ensures
        r.0 is None,
        current is Some ==> (r.1 matches Some(m) && m@ == "Selected node — place mode off"@),
        current is None ==> r.1 is None,
{
    match current {
        Some(_) => (None, Some("Selected node — place mode off")),
        None => (None, None),
    }
}

// ---------------------------------------------------------------------------
// Project assets.

#[derive(Debug, Clone, Copy, PartialEq, Eq, Structural)]
pub enum AssetKind {
    Mesh,
    Texture,
    Material,
    Scene,
    Other,
}

/// The kind of an asset whose file extension is `ext`, compared ASCII
/// case-insensitively.
pub open spec fn asset_kind_for(ext: Seq<char>) -> AssetKind {
    let e = lower(ext);
    if e == "gltf"@ || e == "glb"@ || e == "obj"@ || e == "fbx"@ {
        AssetKind::Mesh
    } else if e == "png"@ || e == "jpg"@ || e == "jpeg"@ || e == "webp"@ || e == "ktx2"@
        || e == "hdr"@ || e == "exr"@ {
        AssetKind::Texture
    } else if e == "mat"@ {
        AssetKind::Material
    } else {
        AssetKind::Other
    }
}

/// An extension's kind does not depend on its case: ASCII upper- or
/// lower-casing it keeps the kind. No extension is taken for a scene.
pub proof fn law_asset_kind_ignores_case(ext: Seq<char>)
    ensures
        asset_kind_for(upper(ext)) == asset_kind_for(ext),
        asset_kind_for(lower(ext)) == asset_kind_for(ext),
        asset_kind_for(ext) != AssetKind::Scene,
{
    lemma_lower_ignores_case(ext);
}

/// Display name of each asset kind.
pub open spec fn asset_kind_label(k: AssetKind) -> &'static str {
    match k {
        AssetKind::Mesh => "Mesh",
        AssetKind::Texture => "Texture",
        AssetKind::Material => "Material",
        AssetKind::Scene => "Scene",
        AssetKind::Other => "File",
    }
}

impl AssetKind {
    pub fn from_extension(ext: &str) -> (k: Self)
        ensures
            k == asset_kind_for(ext@),
    {
        let e = lower_chars_of(ext);
        if chars_eq_str(&e, "gltf") || chars_eq_str(&e, "glb") || chars_eq_str(&e, "obj")
            || chars_eq_str(&e, "fbx") {
            AssetKind::Mesh
        } else if chars_eq_str(&e, "png") || chars_eq_str(&e, "jpg") || chars_eq_str(&e, "jpeg")
            || chars_eq_str(&e, "webp") || chars_eq_str(&e, "ktx2") || chars_eq_str(&e, "hdr")
            || chars_eq_str(&e, "exr") {
            AssetKind::Texture
        } else if chars_eq_str(&e, "mat") {
            AssetKind::Material
        } else {
            AssetKind::Other
        }
    }

    pub fn label(self) -> (r: &'static str)
        ensures
            r@ == asset_kind_label(self)@,
    {
        match self {
            AssetKind::Mesh => "Mesh",
            AssetKind::Texture => "Texture",
            AssetKind::Material => "Material",
            AssetKind::Scene => "Scene",
            AssetKind::Other => "File",
        }
    }
}

/// One file found under the project's `assets` folder.
#[derive(Debug)]
pub struct ProjectAsset {
    pub name: String,
    pub path: std::path::PathBuf,
    pub kind: AssetKind,
}

/// Names in `assets` never decrease.
pub open spec fn sorted_by_name(assets: Seq<ProjectAsset>) -> bool {
    forall|i: int, j: int| 0 <= i < j < assets.len() ==> name_le(assets[i].name@, assets[j].name@)
}

/// `output[i]` is `input[perm[i]]`, `perm` is a permutation of the indices
/// of `input`, and assets of equal names keep their relative order.
pub open spec fn stable_reorder(input: Seq<ProjectAsset>, output: Seq<ProjectAsset>, perm: Seq<int>) -> bool {
    &&& perm.len() == output.len()
    &&& output.len() == input.len()
    &&& forall|i: int| 0 <= i < perm.len() ==> 0 <= #[trigger] perm[i] < input.len()
    &&& forall|i: int| 0 <= i < output.len() ==> #[trigger] output[i] == input[perm[i]]
    &&& forall|i: int, j: int| 0 <= i < j < perm.len() ==> perm[i] != perm[j]
    &&& forall|i: int, j: int|
        0 <= i < j < output.len() && output[i].name@ == output[j].name@ ==> perm[i] < perm[j]
}

/// Where an asset named `name` goes in `sorted`: after every asset whose
/// name orders before or with it.
fn insert_position(sorted: &Vec<ProjectAsset>, name: &str) -> (pos: usize)
    ensures
        pos <= sorted@.len(),
        forall|i: int| 0 <= i < pos ==> name_le(#[trigger] sorted@[i].name@, name@),
        pos < sorted@.len() ==> !name_le(sorted@[pos as int].name@, name@),
{
    let mut pos: usize = 0;
    while pos < sorted.len() && name_le_exec(sorted[pos].name.as_str(), name)
        invariant
            pos <= sorted@.len(),
            forall|i: int| 0 <= i < pos ==> name_le(#[trigger] sorted@[i].name@, name@),
        decreases sorted.len() - pos,
    {
        pos += 1;
    }
    pos
}

/// `assets` ordered by name; assets of equal names keep their order (a
/// stable sort).
pub fn sort_assets_by_name(assets: Vec<ProjectAsset>) -> (r: Vec<ProjectAsset>)
    ensures
        sorted_by_name(r@),
        exists|perm: Seq<int>| stable_reorder(assets@, r@, perm),
{
    let ghost input = assets@;
    let mut rest = assets;
    let mut out: Vec<ProjectAsset> = Vec::new();
    let ghost mut perm: Seq<int> = Seq::empty();
    let ghost mut k: int = 0;
    while rest.len() > 0
        invariant
            0 <= k <= input.len(),
            rest@ == input.skip(k),
            out@.len() == k,
            perm.len() == k,
            forall|i: int| 0 <= i < k ==> 0 <= #[trigger] perm[i] < k,
            forall|i: int| 0 <= i < k ==> #[trigger] out@[i] == input[perm[i]],
            forall|i: int, j: int| 0 <= i < j < k ==> perm[i] != perm[j],
            sorted_by_name(out@),
            forall|i: int, j: int|
                0 <= i < j < k && out@[i].name@ == out@[j].name@ ==> perm[i] < perm[j],
        decreases rest.len(),
    {
        let x = rest.remove(0);
        assert(x == input[k]);
        let pos = insert_position(&out, x.name.as_str());
        let ghost old_out = out@;
        let ghost old_perm = perm;
        let ghost xn = x.name@;
        out.insert(pos, x);
        proof {
            let p = pos as int;
            perm = perm.insert(p, k);
            assert(rest@ =~= input.skip(k + 1));
            assert forall|i: int| 0 <= i < k + 1 implies 0 <= #[trigger] perm[i] < k + 1 by {
                if i > p {
                    assert(perm[i] == old_perm[i - 1]);
                }
            }
            assert forall|i: int| 0 <= i < k + 1 implies #[trigger] out@[i] == input[perm[i]] by {
                if i > p {
                    assert(out@[i] == old_out[i - 1]);
                    assert(perm[i] == old_perm[i - 1]);
                }
            }
            assert forall|i: int, j: int| 0 <= i < j < k + 1 implies perm[i] != perm[j] by {
                if i > p {
                    assert(perm[i] == old_perm[i - 1]);
                }
                if j > p {
                    assert(perm[j] == old_perm[j - 1]);
                }
                if i < p && j != p {
                    assert(perm[i] == old_perm[i]);
                }
            }
            if p < old_out.len() {
                lemma_name_le_total(old_out[p].name@, xn);
            }
            assert forall|i: int, j: int| 0 <= i < j < out@.len() implies name_le(
                out@[i].name@,
                out@[j].name@,
            ) by {
                if i == p {
                    assert(out@[j] == old_out[j - 1]);
                    if j - 1 > p {
                        lemma_name_le_transitive(xn, old_out[p].name@, old_out[j - 1].name@);
                    }
                } else if j == p {
                    assert(out@[i] == old_out[i]);
                } else {
                    let oi = if i < p { i } else { i - 1 };
                    let oj = if j < p { j } else { j - 1 };
                    assert(out@[i] == old_out[oi]);
                    assert(out@[j] == old_out[oj]);
                }
            }
            assert forall|i: int, j: int|
                0 <= i < j < k + 1 && out@[i].name@ == out@[j].name@ implies perm[i] < perm[j] by {
                if i == p {
                    assert(out@[j] == old_out[j - 1]);
                    if j - 1 > p {
                        assert(name_le(old_out[p].name@, old_out[j - 1].name@));
                    }
                    lemma_name_le_reflexive(xn);
                    assert(false);
                } else if j == p {
                    assert(perm[i] == old_perm[i]);
                } else {
                    let oi = if i < p { i } else { i - 1 };
                    let oj = if j < p { j } else { j - 1 };
                    assert(out@[i] == old_out[oi]);
                    assert(out@[j] == old_out[oj]);
                    assert(perm[i] == old_perm[oi]);
                    assert(perm[j] == old_perm[oj]);
                }
            }
            k = k + 1;
        }
    }
    proof {
        assert(stable_reorder(input, out@, perm));
    }
    out
}

/// Folders a project keeps under its root, created when missing.
pub open spec fn layout_dirs() -> Seq<Seq<char>> {
    seq![
        "assets/Environment"@, "assets/Foliage"@, "assets/Materials"@, "assets/Meshes"@,
        "assets/Textures"@, "assets/Imported"@, "scenes"@, "scripts/graphs"@,
    ]
}

/// The folders of [`layout_dirs`], relative to the project root.
pub fn project_layout_dirs() -> (r: [&'static str; 8])
    ensures
        r@.map_values(|d: &str| d@) == layout_dirs(),
{
    let r = [
        "assets/Environment", "assets/Foliage", "assets/Materials", "assets/Meshes",
        "assets/Textures", "assets/Imported", "scenes", "scripts/graphs",
    ];
    assert(r@.map_values(|d: &str| d@) =~= layout_dirs());
    r
}

} // verus!
