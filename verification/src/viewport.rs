//! Scene viewport choices that are not geometry: the active tool and its
//! labels, gizmo axes, which loaded photogrammetry prop mesh an entity is
//! drawn with, and how entities are batched and picked by name.

use vstd::prelude::*;

use crate::selection::{select_mode_for_modifiers, Entity, SelectMode};
use crate::text::{contains_seq, lower, lower_chars_of, mentions};

verus! {

/// A gizmo handle's axis.
#[derive(Debug, Clone, Copy, PartialEq, Eq, Structural)]
pub enum GizmoAxis {
    X,
    Y,
    Z,
}

/// Viewport transform / world tool.
#[derive(Debug, Clone, Copy, PartialEq, Eq, Structural)]
pub enum ViewportTool {
    Select,
    Move,
    Rotate,
    Scale,
    /// Terrain sculpting.
    Landscape,
    /// Foliage painting.
    Foliage,
    /// Mesh-accurate ray picking.
    RayAccurate,
}

/// Name of each tool on the status bar.
pub open spec fn tool_label(t: ViewportTool) -> &'static str {
    match t {
        ViewportTool::Select => "Select",
        ViewportTool::Move => "Move",
        ViewportTool::Rotate => "Rotate",
        ViewportTool::Scale => "Scale",
        ViewportTool::Landscape => "Landscape",
        ViewportTool::Foliage => "Foliage",
        ViewportTool::RayAccurate => "RayAccurate",
    }
}

/// Short name of each tool on the viewport's tool strip.
pub open spec fn tool_strip_label(t: ViewportTool) -> &'static str {
    match t {
        ViewportTool::Select => "Select",
        ViewportTool::Move => "Move",
        ViewportTool::Rotate => "Rotate",
        ViewportTool::Scale => "Scale",
        ViewportTool::Landscape => "Land",
        ViewportTool::Foliage => "Foliage",
        ViewportTool::RayAccurate => "Ray",
    }
}

/// The usage hint the viewport shows for each tool.
pub open spec fn tool_hint(t: ViewportTool) -> &'static str {
    match t {
        ViewportTool::Move => "Move · drag near gizmo · G grab · MMB orbit · RMB pan",
        ViewportTool::Rotate => "Rotate · drag selection (Y-axis) · E tool · MMB orbit",
        ViewportTool::Scale => "Scale · drag selection · R tool · MMB orbit",
        ViewportTool::Landscape => "Landscape · LMB sculpt raise · Shift lower · [ ] brush · Shift+2",
        ViewportTool::Foliage => "Foliage · LMB paint · Shift erase · Shift+3",
        ViewportTool::RayAccurate => "RayAccurate · Parry mesh pick · Blender-like · Shift+4",
        ViewportTool::Select => "Select · LMB pick · Q · Shift+1 · MMB orbit · RMB pan",
    }
}

impl ViewportTool {
    pub fn label(self) -> (r: &'static str)
        ensures
            r@ == tool_label(self)@,
    {
        match self {
            ViewportTool::Select => "Select",
            ViewportTool::Move => "Move",
            ViewportTool::Rotate => "Rotate",
            ViewportTool::Scale => "Scale",
            ViewportTool::Landscape => "Landscape",
            ViewportTool::Foliage => "Foliage",
            ViewportTool::RayAccurate => "RayAccurate",
        }
    }

    pub fn strip_label(self) -> (r: &'static str)
        ensures
            r@ == tool_strip_label(self)@,
    {
        match self {
            ViewportTool::Select => "Select",
            ViewportTool::Move => "Move",
            ViewportTool::Rotate => "Rotate",
            ViewportTool::Scale => "Scale",
            ViewportTool::Landscape => "Land",
            ViewportTool::Foliage => "Foliage",
            ViewportTool::RayAccurate => "Ray",
        }
    }

    pub fn hint(self) -> (r: &'static str)
        ensures
            r@ == tool_hint(self)@,
    {
        match self {
            ViewportTool::Move => "Move · drag near gizmo · G grab · MMB orbit · RMB pan",
            ViewportTool::Rotate => "Rotate · drag selection (Y-axis) · E tool · MMB orbit",
            ViewportTool::Scale => "Scale · drag selection · R tool · MMB orbit",
            ViewportTool::Landscape => "Landscape · LMB sculpt raise · Shift lower · [ ] brush · Shift+2",
            ViewportTool::Foliage => "Foliage · LMB paint · Shift erase · Shift+3",
            ViewportTool::RayAccurate => "RayAccurate · Parry mesh pick · Blender-like · Shift+4",
            ViewportTool::Select => "Select · LMB pick · Q · Shift+1 · MMB orbit · RMB pan",
        }
    }
}

impl Default for ViewportTool {
    fn default() -> (t: Self)
        ensures
            t == ViewportTool::Select,
    {
        ViewportTool::Select
    }
}

/// Which of the four prop meshes (shrub, fern, large rock, small rock) are
/// loaded.
#[derive(Debug, Clone, Copy)]
pub struct PropSlots {
    pub loaded: [bool; 4],
}

/// The prop slot a foliage entity named `name` is drawn with: the fern slot
/// for fern and grass names, the shrub slot for shrub names, each only when
/// loaded. Trees keep their stylized mesh.
pub open spec fn foliage_slot_for(loaded: Seq<bool>, name: Seq<char>) -> Option<usize> {
    let l = lower(name);
    if contains_seq(l, "fern_02"@) || contains_seq(l, "grass_patch"@) || contains_seq(l, "grass"@) {
        if loaded[1] { Some(1usize) } else { None }
    } else if contains_seq(l, "shrub_03"@) || contains_seq(l, "shrub"@) {
        if loaded[0] { Some(0usize) } else { None }
    } else {
        None
    }
}

/// The prop slot a rock entity named `name` is drawn with: the large rock for
/// `rock_09` / `rock_large`, the small one for `rock_06` / `rock_scatter`,
/// each only when loaded; other rocks and cliffs take the large rock when
/// their name says large and it is loaded, else whichever is loaded, the
/// small one first.
pub open spec fn rock_slot_for(loaded: Seq<bool>, name: Seq<char>) -> Option<usize> {
    let l = lower(name);
    if contains_seq(l, "rock_09"@) || contains_seq(l, "rock_large"@) {
        if loaded[2] { Some(2usize) } else { None }
    } else if contains_seq(l, "rock_06"@) || contains_seq(l, "rock_scatter"@) {
        if loaded[3] { Some(3usize) } else { None }
    } else if contains_seq(l, "rock"@) || contains_seq(l, "cliff"@) {
        if contains_seq(l, "large"@) && loaded[2] {
            Some(2usize)
        } else if loaded[3] {
            Some(3usize)
        } else if loaded[2] {
            Some(2usize)
        } else {
            None
        }
    } else {
        None
    }
}

impl PropSlots {
    /// The prop slot for a foliage entity (see [`foliage_slot_for`]). A slot
    /// given back is always a loaded one.
    pub fn foliage_slot(&self, name: &str) -> (r: Option<usize>)
        ensures
            r == foliage_slot_for(self.loaded@, name@),
            r matches Some(i) ==> i < 2 && self.loaded@[i as int],
    {
        let l = lower_chars_of(name);
        if mentions(&l, "fern_02") || mentions(&l, "grass_patch") || mentions(&l, "grass") {
            return if self.loaded[1] { Some(1) } else { None };
        }
        if mentions(&l, "shrub_03") || mentions(&l, "shrub") {
            return if self.loaded[0] { Some(0) } else { None };
        }
        None
    }

    /// The prop slot for a rock entity (see [`rock_slot_for`]). A slot given
    /// back is always a loaded one.
    pub fn rock_slot(&self, name: &str) -> (r: Option<usize>)
        ensures
            r == rock_slot_for(self.loaded@, name@),
            r matches Some(i) ==> 2 <= i < 4 && self.loaded@[i as int],
    {
        let l = lower_chars_of(name);
        if mentions(&l, "rock_09") || mentions(&l, "rock_large") {
            return if self.loaded[2] { Some(2) } else { None };
        }
        if mentions(&l, "rock_06") || mentions(&l, "rock_scatter") {
            return if self.loaded[3] { Some(3) } else { None };
        }
        if mentions(&l, "rock") || mentions(&l, "cliff") {
            if mentions(&l, "large") && self.loaded[2] {
                Some(2)
            } else if self.loaded[3] {
                Some(3)
            } else if self.loaded[2] {
                Some(2)
            } else {
                None
            }
        } else {
            None
        }
    }
}

impl Default for PropSlots {
    fn default() -> (s: Self)
        ensures
            s.loaded@ == seq![false, false, false, false],
    {
        let s = PropSlots { loaded: [false, false, false, false] };
        assert(s.loaded@ =~= seq![false, false, false, false]);
        s
    }
}

/// Each prop slot and its glTF file, relative to the props folder.
pub open spec fn prop_paths() -> Seq<(usize, Seq<char>)> {
    seq![
        (0usize, "shrub_03/shrub_03_1k.gltf"@),
        (1usize, "fern_02/fern_02_1k.gltf"@),
        (2usize, "rock_09/rock_09_1k.gltf"@),
        (3usize, "rock_06/rock_06_1k.gltf"@),
    ]
}

/// The glTF file of each prop slot (see [`prop_paths`]).
pub fn prop_gltf_paths() -> (r: [(usize, &'static str); 4])
    ensures
        r@.map_values(|p: (usize, &'static str)| (p.0, p.1@)) == prop_paths(),
{
    let r = [
        (0, "shrub_03/shrub_03_1k.gltf"),
        (1, "fern_02/fern_02_1k.gltf"),
        (2, "rock_09/rock_09_1k.gltf"),
        (3, "rock_06/rock_06_1k.gltf"),
    ];
    assert(r@.map_values(|p: (usize, &'static str)| (p.0, p.1@)) =~= prop_paths());
    r
}

// ---------------------------------------------------------------------------
// How scene entities are drawn and picked, by name.

/// The batch an entity is drawn in.
#[derive(Debug, Clone, Copy, PartialEq, Eq, Structural)]
pub enum DrawBucket {
    /// The water plane is drawn.
    Water,
    /// A small marker sphere (lights, sky, fog).
    Marker,
    Mountain,
    /// A ground plate.
    Ground,
    /// A loaded photogrammetry prop mesh, by slot.
    Prop(usize),
    /// The stylized rock mesh.
    Rock,
    /// The stylized foliage mesh.
    Foliage,
    /// A plain cube.
    Cube,
}

/// The batch an entity named `name` is drawn in: water, markers for lights,
/// sky and fog, mountains, ground for terrain, then cliffs and rocks (a
/// loaded rock prop, else the stylized rock), then trees and ground cover (a
/// loaded foliage prop, else the stylized foliage), else a cube; names are
/// compared ASCII case-insensitively.
pub open spec fn draw_bucket_for(loaded: Seq<bool>, name: Seq<char>) -> DrawBucket {
    let l = lower(name);
    if contains_seq(l, "water"@) {
        DrawBucket::Water
    } else if contains_seq(l, "light"@) || contains_seq(l, "fog"@) || contains_seq(l, "sky"@) {
        DrawBucket::Marker
    } else if contains_seq(l, "mountain"@) {
        DrawBucket::Mountain
    } else if contains_seq(l, "terrain"@) || contains_seq(l, "heightmap"@) {
        DrawBucket::Ground
    } else if contains_seq(l, "cliff"@) || contains_seq(l, "rock"@) {
        match rock_slot_for(loaded, name) {
            Some(slot) => DrawBucket::Prop(slot),
            None => DrawBucket::Rock,
        }
    } else if contains_seq(l, "pine"@) || contains_seq(l, "birch"@) || contains_seq(l, "tree"@)
        || contains_seq(l, "grass"@) || contains_seq(l, "dead"@) || contains_seq(l, "shrub"@)
        || contains_seq(l, "fern"@) {
        match foliage_slot_for(loaded, name) {
            Some(slot) => DrawBucket::Prop(slot),
            None => DrawBucket::Foliage,
        }
    } else {
        DrawBucket::Cube
    }
}

/// Entities named for the sky, fog or terrain cannot be clicked.
pub open spec fn pickable_name(name: Seq<char>) -> bool {
    let l = lower(name);
    !contains_seq(l, "sky"@) && !contains_seq(l, "fog"@) && !contains_seq(l, "terrain"@)
}

/// Size class of an entity's pick box, by name.
#[derive(Debug, Clone, Copy, PartialEq, Eq, Structural)]
pub enum ExtentClass {
    Light,
    Tree,
    GroundCover,
    Shrub,
    Rock,
    Mountain,
    Terrain,
    Other,
}

/// The pick-box size class of an entity named `name`, the first that
/// matches: lights, trees, grass and ferns, shrubs, rocks and cliffs,
/// mountains, terrain.
pub open spec fn extent_class_for(name: Seq<char>) -> ExtentClass {
    let l = lower(name);
    if contains_seq(l, "light"@) {
        ExtentClass::Light
    } else if contains_seq(l, "pine"@) || contains_seq(l, "birch"@) || contains_seq(l, "tree"@) {
        ExtentClass::Tree
    } else if contains_seq(l, "grass"@) || contains_seq(l, "fern"@) {
        ExtentClass::GroundCover
    } else if contains_seq(l, "shrub"@) {
        ExtentClass::Shrub
    } else if contains_seq(l, "rock"@) || contains_seq(l, "cliff"@) {
        ExtentClass::Rock
    } else if contains_seq(l, "mountain"@) {
        ExtentClass::Mountain
    } else if contains_seq(l, "terrain"@) || contains_seq(l, "heightmap"@) {
        ExtentClass::Terrain
    } else {
        ExtentClass::Other
    }
}

impl PropSlots {
    /// The batch an entity named `name` is drawn in (see [`draw_bucket_for`]).
    pub fn draw_bucket(&self, name: &str) -> (b: DrawBucket)
        ensures
            b == draw_bucket_for(self.loaded@, name@),
    {
        let l = lower_chars_of(name);
        if mentions(&l, "water") {
            DrawBucket::Water
        } else if mentions(&l, "light") || mentions(&l, "fog") || mentions(&l, "sky") {
            DrawBucket::Marker
        } else if mentions(&l, "mountain") {
            DrawBucket::Mountain
        } else if mentions(&l, "terrain") || mentions(&l, "heightmap") {
            DrawBucket::Ground
        } else if mentions(&l, "cliff") || mentions(&l, "rock") {
            match self.rock_slot(name) {
                Some(slot) => DrawBucket::Prop(slot),
                None => DrawBucket::Rock,
            }
        } else if mentions(&l, "pine") || mentions(&l, "birch") || mentions(&l, "tree") || mentions(&l, "grass") || mentions(
            &l,
            "dead",
        ) || mentions(&l, "shrub") || mentions(&l, "fern") {
            match self.foliage_slot(name) {
                Some(slot) => DrawBucket::Prop(slot),
                None => DrawBucket::Foliage,
            }
        } else {
            DrawBucket::Cube
        }
    }
}

/// Whether an entity named `name` can be clicked (see [`pickable_name`]).
pub fn is_pickable(name: &str) -> (b: bool)
    ensures
        b == pickable_name(name@),
{
    let l = lower_chars_of(name);
    !mentions(&l, "sky") && !mentions(&l, "fog") && !mentions(&l, "terrain")
}

/// The pick-box size class of an entity named `name` (see
/// [`extent_class_for`]).
pub fn extent_class(name: &str) -> (c: ExtentClass)
    ensures
        c == extent_class_for(name@),
{
    let l = lower_chars_of(name);
    if mentions(&l, "light") {
        ExtentClass::Light
    } else if mentions(&l, "pine") || mentions(&l, "birch") || mentions(&l, "tree") {
        ExtentClass::Tree
    } else if mentions(&l, "grass") || mentions(&l, "fern") {
        ExtentClass::GroundCover
    } else if mentions(&l, "shrub") {
        ExtentClass::Shrub
    } else if mentions(&l, "rock") || mentions(&l, "cliff") {
        ExtentClass::Rock
    } else if mentions(&l, "mountain") {
        ExtentClass::Mountain
    } else if mentions(&l, "terrain") || mentions(&l, "heightmap") {
        ExtentClass::Terrain
    } else {
        ExtentClass::Other
    }
}

// ---------------------------------------------------------------------------
// What a click in the viewport does.

/// A brush stroke on the ground.
#[derive(Debug, Clone, Copy, PartialEq, Eq, Structural)]
pub enum BrushAction {
    /// Paint the selected terrain layer.
    TerrainPaint,
    /// Sculpt the terrain: raise, or lower with Shift.
    TerrainSculpt { lower: bool },
    /// Paint foliage, or erase it with Shift.
    FoliagePaint { erase: bool },
}

/// What a primary click in the viewport does.
#[derive(Debug, Clone, Copy, PartialEq, Eq, Structural)]
pub enum ClickAction {
    Select { entity: Entity, mode: SelectMode },
    ClearSelection,
    /// Place the brush item where the click hit the ground.
    PlaceAt,
    Brush(BrushAction),
    Nothing,
}

/// The stroke the landscape and foliage tools make on the ground; other
/// tools make none.
pub open spec fn brush_for(tool: ViewportTool, landscape_paint: bool, shift: bool) -> Option<BrushAction> {
    match tool {
        ViewportTool::Landscape => if landscape_paint {
            Some(BrushAction::TerrainPaint)
        } else {
            Some(BrushAction::TerrainSculpt { lower: shift })
        },
        ViewportTool::Foliage => Some(BrushAction::FoliagePaint { erase: shift }),
        _ => None,
    }
}

/// The stroke a landscape or foliage tool makes (see [`brush_for`]).
pub fn brush_action(tool: ViewportTool, landscape_paint: bool, shift: bool) -> (r: Option<BrushAction>)
    ensures
        r == brush_for(tool, landscape_paint, shift),
{
    match tool {
        ViewportTool::Landscape => if landscape_paint {
            Some(BrushAction::TerrainPaint)
        } else {
            Some(BrushAction::TerrainSculpt { lower: shift })
        },
        ViewportTool::Foliage => Some(BrushAction::FoliagePaint { erase: shift }),
        _ => None,
    }
}

/// Ray picking against meshes is used by the ray tool; others pick boxes.
pub fn uses_ray_pick(tool: ViewportTool) -> (b: bool)
    ensures
        b == (tool == ViewportTool::RayAccurate),
{
    tool == ViewportTool::RayAccurate
}

/// What a primary click does, given whether a placement brush is active,
/// the tool, the held modifiers, the entity under the pointer (if any) and
/// whether the pointer hits the ground: while placing, a hit entity is
/// selected, else the item is placed on the ground; the landscape and
/// foliage tools stroke the ground; otherwise a hit entity is selected
/// (Shift adds, Ctrl/Cmd toggles) and a click on nothing without modifiers
/// clears the selection.
pub open spec fn click_for(
    placing: bool,
    tool: ViewportTool,
    landscape_paint: bool,
    shift: bool,
    ctrl: bool,
    command: bool,
    picked: Option<Entity>,
    hits_ground: bool,
) -> ClickAction {
    let mode = if shift {
        SelectMode::Add
    } else if command || ctrl {
        SelectMode::Toggle
    } else {
        SelectMode::Replace
    };
    if placing {
        match picked {
            Some(e) => ClickAction::Select { entity: e, mode },
            None => if hits_ground { ClickAction::PlaceAt } else { ClickAction::Nothing },
        }
    } else if tool == ViewportTool::Landscape || tool == ViewportTool::Foliage {
        if hits_ground {
            ClickAction::Brush(brush_for(tool, landscape_paint, shift)->Some_0)
        } else {
            ClickAction::Nothing
        }
    } else {
        match picked {
            Some(e) => ClickAction::Select { entity: e, mode },
            None => if !(shift || ctrl || command) {
                ClickAction::ClearSelection
            } else {
                ClickAction::Nothing
            },
        }
    }
}

/// Outside placement and the brush tools, a click on an entity selects it
/// (Shift adds it, Ctrl or Cmd toggles it, no modifier replaces the
/// selection), and a click on nothing clears the selection exactly when no
/// modifier is held. Whatever the tool, a modified click that picks nothing
/// never clears the selection.
pub proof fn law_click_selects(
    placing: bool,
    tool: ViewportTool,
    landscape_paint: bool,
    shift: bool,
    ctrl: bool,
    command: bool,
    picked: Option<Entity>,
    hits_ground: bool,
)
    ensures
        (shift || ctrl || command) ==> click_for(
            placing,
            tool,
            landscape_paint,
            shift,
            ctrl,
            command,
            None,
            hits_ground,
        ) != ClickAction::ClearSelection,
        !placing && tool != ViewportTool::Landscape && tool != ViewportTool::Foliage ==> {
            &&& click_for(placing, tool, landscape_paint, shift, ctrl, command, None, hits_ground) == (if shift
                || ctrl || command {
                ClickAction::Nothing
            } else {
                ClickAction::ClearSelection
            })
            &&& picked matches Some(e) ==> click_for(
                placing,
                tool,
                landscape_paint,
                shift,
                ctrl,
                command,
                picked,
                hits_ground,
            ) == ClickAction::Select {
                entity: e,
                mode: if shift {
                    SelectMode::Add
                } else if ctrl || command {
                    SelectMode::Toggle
                } else {
                    SelectMode::Replace
                },
            }
        },
{
}

/// What a primary click does (see [`click_for`]).
pub fn click_action(
    placing: bool,
    tool: ViewportTool,
    landscape_paint: bool,
    shift: bool,
    ctrl: bool,
    command: bool,
    picked: Option<Entity>,
    hits_ground: bool,
) -> (a: ClickAction)
    ensures
        a == click_for(placing, tool, landscape_paint, shift, ctrl, command, picked, hits_ground),
{
    let mode = select_mode_for_modifiers(shift, command, ctrl);
    if placing {
        match picked {
            Some(e) => ClickAction::Select { entity: e, mode },
            None => if hits_ground {
                ClickAction::PlaceAt
            } else {
                ClickAction::Nothing
            },
        }
    } else if tool == ViewportTool::Landscape || tool == ViewportTool::Foliage {
        if hits_ground {
            match brush_action(tool, landscape_paint, shift) {
                Some(b) => ClickAction::Brush(b),
                None => ClickAction::Nothing,
            }
        } else {
            ClickAction::Nothing
        }
    } else {
        match picked {
            Some(e) => ClickAction::Select { entity: e, mode },
            None => if !(shift || ctrl || command) {
                ClickAction::ClearSelection
            } else {
                ClickAction::Nothing
            },
        }
    }
}

// ---------------------------------------------------------------------------
// Landscape and foliage brush strokes.

/// Terrain layer a paint stroke paints: the layer chosen in the landscape
/// palette while paint mode is on, else the stroke's own layer.
pub fn paint_layer_choice(landscape_paint: bool, chosen: u8, stroke_layer: u8) -> (layer: usize)
    ensures
        layer == (if landscape_paint { chosen } else { stroke_layer }),
{
    if landscape_paint {
        chosen as usize
    } else {
        stroke_layer as usize
    }
}

/// Seed of a foliage paint stroke on a layer holding `instances` instances:
/// `instances * 0x9E37_79B9 + 1`, wrapping at 2^64.
pub fn foliage_paint_seed(instances: u64) -> (seed: u64)
    ensures
        seed as int == (instances as int * 0x9E37_79B9 + 1) % 0x1_0000_0000_0000_0000,
{
    let s = instances.wrapping_mul(0x9E37_79B9).wrapping_add(1);
    proof {
        let m: int = 0x1_0000_0000_0000_0000;
        let p: int = instances as int * 0x9E37_79B9;
        vstd::arithmetic::div_mod::lemma_add_mod_noop(p, 1, m);
        assert(1int % m == 1);
        assert((p % m) % m == p % m) by {
            vstd::arithmetic::div_mod::lemma_mod_twice(p, m);
        }
        assert(0 <= p % m < m) by {
            vstd::arithmetic::div_mod::lemma_mod_bound(p, m);
        }
    }
    s
}

} // verus!
