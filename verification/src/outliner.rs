//! The scene outliner's rules: how entities are labelled, which rows a
//! search and a type filter show, the folder each row goes in, and the names
//! the editor gives new entities and tabs.

use vstd::prelude::*;

use crate::text::{
    chars_eq_str, chars_of, contains_chars, contains_seq, decimal, decimal_string, lower,
    lower_chars_of, mentions, push_str, starts_with, str_starts_with,
};

verus! {

/// A type filter of the outliner.
#[derive(Debug, Clone, Copy, PartialEq, Eq, Structural)]
pub enum OutlinerChip {
    Light,
    Mesh,
    Water,
    Terrain,
}

/// A folder of the outliner's tree view.
#[derive(Debug, Clone, Copy, PartialEq, Eq, Structural)]
pub enum OutlinerFolder {
    Environment,
    Terrain,
    WorldObjects,
}

/// The lower-cased label `l` passes the type filter `chip` (all pass with
/// none).
pub open spec fn chip_accepts(chip: Option<OutlinerChip>, l: Seq<char>) -> bool {
    let lightish = contains_seq(l, "light"@) || contains_seq(l, "sky"@) || contains_seq(l, "fog"@);
    match chip {
        Some(OutlinerChip::Light) => lightish,
        Some(OutlinerChip::Mesh) => !(lightish || contains_seq(l, "water"@) || contains_seq(
            l,
            "terrain"@,
        ) || contains_seq(l, "heightmap"@)),
        Some(OutlinerChip::Water) => contains_seq(l, "water"@),
        Some(OutlinerChip::Terrain) => contains_seq(l, "terrain"@) || contains_seq(l, "heightmap"@),
        None => true,
    }
}

/// A row labelled `label` is shown for the search text `filter` and the
/// type filter `chip`: its label contains the search (ASCII
/// case-insensitively; an empty search matches all) and passes the chip.
pub open spec fn row_visible(label: Seq<char>, filter: Seq<char>, chip: Option<OutlinerChip>) -> bool {
    let l = lower(label);
    let f = lower(filter);
    (f.len() == 0 || contains_seq(l, f)) && chip_accepts(chip, l)
}

/// With no search text, the type filters sort rows by what their
/// lower-cased label mentions: the Light chip shows exactly the rows that
/// mention a light, the sky or fog; the Water chip those that mention water;
/// the Terrain chip those that mention terrain or a heightmap; the Mesh chip
/// exactly the rest; and no chip shows every row. A search shows exactly the
/// rows whose label contains it, ASCII case-insensitively.
pub proof fn law_chips_sort_rows(label: Seq<char>, filter: Seq<char>)
    ensures
        ({
            let l = lower(label);
            let lightish = contains_seq(l, "light"@) || contains_seq(l, "sky"@) || contains_seq(l, "fog"@);
            let watery = contains_seq(l, "water"@);
            let ground = contains_seq(l, "terrain"@) || contains_seq(l, "heightmap"@);
            &&& row_visible(label, Seq::empty(), Some(OutlinerChip::Light)) == lightish
            &&& row_visible(label, Seq::empty(), Some(OutlinerChip::Water)) == watery
            &&& row_visible(label, Seq::empty(), Some(OutlinerChip::Terrain)) == ground
            &&& row_visible(label, Seq::empty(), Some(OutlinerChip::Mesh)) == !(lightish || watery || ground)
            &&& row_visible(label, Seq::empty(), None)
            &&& row_visible(label, filter, None) == (filter.len() == 0 || contains_seq(l, lower(filter)))
        }),
{
    assert(lower(Seq::<char>::empty()).len() == 0);
}

/// Labels of the entities that go in the Environment folder.
pub open spec fn is_environment_label(label: Seq<char>) -> bool {
    label == "DirectionalLight"@ || label == "PointLight"@ || label == "SpotLight"@ || label
        == "SkyAtmosphere"@ || label == "FogVolume"@
}

/// Labels (lower-cased) of the entities that go in the Terrain folder.
pub open spec fn is_terrain_label(l: Seq<char>) -> bool {
    contains_seq(l, "terrain"@) || contains_seq(l, "heightmap"@) || contains_seq(l, "water"@)
        || contains_seq(l, "mountain"@) || contains_seq(l, "cliff"@)
}

/// The folder a row labelled `label` goes in.
pub open spec fn folder_of(label: Seq<char>) -> OutlinerFolder {
    if is_environment_label(label) {
        OutlinerFolder::Environment
    } else if is_terrain_label(lower(label)) {
        OutlinerFolder::Terrain
    } else {
        OutlinerFolder::WorldObjects
    }
}

/// Whether a row labelled `label` is shown (see [`row_visible`]).
pub fn outliner_row_visible(label: &str, filter: &str, chip: Option<OutlinerChip>) -> (b: bool)
    ensures
        b == row_visible(label@, filter@, chip),
{
    let l = lower_chars_of(label);
    let f = lower_chars_of(filter);
    if f.len() > 0 && !contains_chars(&l, &f) {
        return false;
    }
    let lightish = mentions(&l, "light") || mentions(&l, "sky") || mentions(&l, "fog");
    match chip {
        Some(OutlinerChip::Light) => lightish,
        Some(OutlinerChip::Mesh) => !(lightish || mentions(&l, "water") || mentions(&l, "terrain") || mentions(
            &l,
            "heightmap",
        )),
        Some(OutlinerChip::Water) => mentions(&l, "water"),
        Some(OutlinerChip::Terrain) => mentions(&l, "terrain") || mentions(&l, "heightmap"),
        None => true,
    }
}

/// The folder a row labelled `label` goes in (see [`folder_of`]).
pub fn outliner_folder(label: &str) -> (f: OutlinerFolder)
    ensures
        f == folder_of(label@),
{
    let cs = chars_of(label);
    if chars_eq_str(&cs, "DirectionalLight") || chars_eq_str(&cs, "PointLight") || chars_eq_str(
        &cs,
        "SpotLight",
    ) || chars_eq_str(&cs, "SkyAtmosphere") || chars_eq_str(&cs, "FogVolume") {
        return OutlinerFolder::Environment;
    }
    let l = lower_chars_of(label);
    if mentions(&l, "terrain") || mentions(&l, "heightmap") || mentions(&l, "water") || mentions(&l, "mountain") || mentions(
        &l,
        "cliff",
    ) {
        OutlinerFolder::Terrain
    } else {
        OutlinerFolder::WorldObjects
    }
}

/// Rows are listed flat, not in folders, while a search or type filter is
/// set.
pub fn outliner_is_flat(filter: &str, chip: Option<OutlinerChip>) -> (b: bool)
    ensures
        b == (lower(filter@).len() > 0 || chip is Some),
{
    filter.unicode_len() > 0 || chip.is_some()
}

/// The outliner label of the entity listed `index`-th: its name, or
/// `Entity <index>` when it has none.
pub fn hierarchy_label(index: usize, name: Option<&str>) -> (r: String)
    ensures
        r@ == match name {
            Some(n) => n@,
            None => "Entity "@ + decimal(index as nat),
        },
{
    match name {
        Some(n) => String::from_str(n),
        None => {
            let mut out = String::from_str("Entity ");
            let digits = decimal_string(index as u64);
            push_str(&mut out, digits.as_str());
            out
        },
    }
}

/// The name of the copy of an entity named `name` (`Entity` when unnamed).
pub fn duplicate_name(name: Option<&str>) -> (r: String)
    ensures
        r@ == match name {
            Some(n) => n@,
            None => "Entity"@,
        } + "_dup"@,
{
    let mut out = match name {
        Some(n) => String::from_str(n),
        None => String::from_str("Entity"),
    };
    push_str(&mut out, "_dup");
    out
}

/// The name of the `n`-th scene tab.
pub fn scene_tab_name(n: usize) -> (r: String)
    ensures
        r@ == "Scene_"@ + decimal(n as nat),
{
    let mut out = String::from_str("Scene_");
    let digits = decimal_string(n as u64);
    push_str(&mut out, digits.as_str());
    out
}

/// The demo scene named `Forest_Valley` is seeded again when the world holds
/// fewer than three entities, or, for that scene, when fewer than eight of
/// its entity names are given ones (not starting `Entity` or `entity_`).
pub open spec fn needs_reseed(entity_count: nat, scene_name: Seq<char>, names: Seq<Seq<char>>) -> bool {
    if entity_count < 3 {
        true
    } else if scene_name != "Forest_Valley"@ {
        false
    } else {
        names.filter(|n: Seq<char>| !starts_with(n, "Entity"@) && !starts_with(n, "entity_"@)).len()
            < 8
    }
}

/// Whether the demo scene is seeded again (see [`needs_reseed`]).
pub fn should_reseed_forest_valley(entity_count: usize, scene_name: &str, names: &Vec<String>) -> (b: bool)
    ensures
        b == needs_reseed(
            entity_count as nat,
            scene_name@,
            names@.map_values(|s: String| s@),
        ),
{
    if entity_count < 3 {
        return true;
    }
    if !crate::text::str_eq(scene_name, "Forest_Valley") {
        return false;
    }
    let ghost views = names@.map_values(|s: String| s@);
    let ghost pred = |n: Seq<char>| !starts_with(n, "Entity"@) && !starts_with(n, "entity_"@);
    let mut named: usize = 0;
    let mut i: usize = 0;
    while i < names.len()
        invariant
            views == names@.map_values(|s: String| s@),
            pred == (|n: Seq<char>| !starts_with(n, "Entity"@) && !starts_with(n, "entity_"@)),
            i <= names@.len(),
            named == views.take(i as int).filter(pred).len(),
            named <= i,
        decreases names.len() - i,
    {
        let n = names[i].as_str();
        let given = !str_starts_with(n, "Entity") && !str_starts_with(n, "entity_");
        proof {
            assert(views.take(i + 1).drop_last() =~= views.take(i as int));
            assert(views.take(i + 1).last() == names@[i as int]@);
            reveal_with_fuel(Seq::filter, 1);
        }
        if given {
            named += 1;
        }
        i += 1;
    }
    proof {
        assert(views.take(names@.len() as int) =~= views);
    }
    named < 8
}

} // verus!
