//! The outside collections the engine keeps: `ahash` maps and sets and
//! `smallvec` lists. Each is declared to Verus, its contents get a name, and each
//! method the logic calls gets a wrapper whose contract says what the method
//! does to those contents.

use vstd::prelude::*;

use ahash::{AHashMap, AHashSet};
use smallvec::SmallVec;


use crate::input::{Action, KeyCode, MouseButton};
use crate::render_graph::ResourceId;
use crate::selection::Entity;

verus! {

#[verifier::external_type_specification]
#[verifier::external_body]
#[verifier::reject_recursive_types(K)]
#[verifier::reject_recursive_types(V)]
#[verifier::reject_recursive_types(S)]
pub struct ExAHashMap<K, V, S>(AHashMap<K, V, S>);

#[verifier::external_type_specification]
#[verifier::external_body]
pub struct ExRandomState(ahash::RandomState);

#[verifier::external_type_specification]
#[verifier::external_body]
#[verifier::reject_recursive_types(T)]
#[verifier::reject_recursive_types(S)]
pub struct ExAHashSet<T, S>(AHashSet<T, S>);

// ---------------------------------------------------------------------------
// SmallVec<[ResourceId; 4]>: the read / write lists of a render pass. Verus
// refuses a declaration of `SmallVec` (its parameter is bounded by smallvec's
// `Array` trait), so the list is held in a private field of this struct.

/// A short inline list of render resources (`SmallVec<[ResourceId; 4]>`).
#[verifier::external_body]
pub struct ResourceList {
    items: SmallVec<[ResourceId; 4]>,
}

/// The resources a list holds, in order.
pub uninterp spec fn resource_list_items(list: ResourceList) -> Seq<ResourceId>;

/// `SmallVec::from_vec`: a list holding `items`, in order.
#[verifier::external_body]
pub(crate) fn resource_list_from_vec(items: Vec<ResourceId>) -> (list: ResourceList)
    ensures
        resource_list_items(list) == items@,
{
    ResourceList { items: SmallVec::from_vec(items) }
}

/// `SmallVec::as_slice`: the list's items, in order, as a slice.
#[verifier::external_body]
pub(crate) fn resource_list_slice(list: &ResourceList) -> (r: &[ResourceId])
    ensures
        r@ == resource_list_items(*list),
{
    list.items.as_slice()
}

// ---------------------------------------------------------------------------
// AHashMap<ResourceId, &'static str>: declared render-graph resources.

/// The declared resources, keyed by resource number, with their names.
pub uninterp spec fn resource_table(m: AHashMap<ResourceId, &'static str>) -> Map<u32, Seq<char>>;

/// `AHashMap::new`: an empty map.
#[verifier::external_body]
pub(crate) fn resource_table_new() -> (table: AHashMap<ResourceId, &'static str>)
    ensures
        resource_table(table).dom().is_empty(),
{
    AHashMap::new()
}

/// `AHashMap::insert`: maps `id` to `name`, replacing an earlier name.
#[verifier::external_body]
pub(crate) fn resource_table_insert(
    m: &mut AHashMap<ResourceId, &'static str>,
    id: ResourceId,
    name: &'static str,
)
    ensures
        resource_table(*final(m)) == resource_table(*old(m)).insert(id.0, name@),
{
    m.insert(id, name);
}

/// `HashMap::contains_key` (through `AHashMap`'s deref): whether `id` is declared.
#[verifier::external_body]
pub(crate) fn resource_table_contains(m: &AHashMap<ResourceId, &'static str>, id: ResourceId) -> (b:
    bool)
    ensures
        b == resource_table(*m).dom().contains(id.0),
{
    m.contains_key(&id)
}

/// `HashMap::clear` (through `AHashMap`'s deref): removes every entry.
#[verifier::external_body]
pub(crate) fn resource_table_clear(table: &mut AHashMap<ResourceId, &'static str>)
    ensures
        resource_table(*final(table)).dom().is_empty(),
{
    table.clear();
}

// ---------------------------------------------------------------------------
// AHashMap<ResourceId, usize>: the last writer pass of each resource.

/// The writer table, keyed by resource number.
pub uninterp spec fn writer_table(m: AHashMap<ResourceId, usize>) -> Map<u32, usize>;

/// `AHashMap::new`: an empty map.
#[verifier::external_body]
pub(crate) fn writer_table_new() -> (table: AHashMap<ResourceId, usize>)
    ensures
        writer_table(table).dom().is_empty(),
{
    AHashMap::new()
}

/// `AHashMap::insert`: maps `id` to `pass`, replacing an earlier value.
#[verifier::external_body]
pub(crate) fn writer_table_insert(m: &mut AHashMap<ResourceId, usize>, id: ResourceId, pass: usize)
    ensures
        writer_table(*final(m)) == writer_table(*old(m)).insert(id.0, pass),
{
    m.insert(id, pass);
}

/// `AHashMap::get`: the value mapped to `id`, if any.
#[verifier::external_body]
pub(crate) fn writer_table_get(m: &AHashMap<ResourceId, usize>, id: ResourceId) -> (r: Option<usize>)
    ensures
        r == (if writer_table(*m).dom().contains(id.0) {
            Some(writer_table(*m)[id.0])
        } else {
            None
        }),
{
    m.get(&id).copied()
}

// ---------------------------------------------------------------------------
// AHashSet<KeyCode> and AHashSet<MouseButton>: buttons held in one frame.

/// The keys a set holds.
pub uninterp spec fn key_set(s: AHashSet<KeyCode>) -> Set<KeyCode>;

/// `AHashSet::new`: an empty set.
#[verifier::external_body]
pub(crate) fn key_set_new() -> (s: AHashSet<KeyCode>)
    ensures
        key_set(s).is_empty(),
{
    AHashSet::new()
}

/// `HashSet::insert` (through `AHashSet`'s deref): adds `k`.
#[verifier::external_body]
pub(crate) fn key_set_insert(s: &mut AHashSet<KeyCode>, k: KeyCode)
    ensures
        key_set(*final(s)) == key_set(*old(s)).insert(k),
{
    s.insert(k);
}

/// `HashSet::remove` (through `AHashSet`'s deref): removes `k`.
#[verifier::external_body]
pub(crate) fn key_set_remove(s: &mut AHashSet<KeyCode>, k: KeyCode)
    ensures
        key_set(*final(s)) == key_set(*old(s)).remove(k),
{
    s.remove(&k);
}

/// `HashSet::contains` (through `AHashSet`'s deref): whether `k` is held.
#[verifier::external_body]
pub(crate) fn key_set_contains(s: &AHashSet<KeyCode>, k: KeyCode) -> (b: bool)
    ensures
        b == key_set(*s).contains(k),
{
    s.contains(&k)
}

/// `AHashSet::clone`: a set with the same keys.
#[verifier::external_body]
pub(crate) fn key_set_clone(s: &AHashSet<KeyCode>) -> (c: AHashSet<KeyCode>)
    ensures
        key_set(c) == key_set(*s),
{
    s.clone()
}

/// The mouse buttons a set holds.
pub uninterp spec fn button_set(s: AHashSet<MouseButton>) -> Set<MouseButton>;

/// `AHashSet::new`: an empty set.
#[verifier::external_body]
pub(crate) fn button_set_new() -> (s: AHashSet<MouseButton>)
    ensures
        button_set(s).is_empty(),
{
    AHashSet::new()
}

/// `HashSet::insert` (through `AHashSet`'s deref): adds `b`.
#[verifier::external_body]
pub(crate) fn button_set_insert(s: &mut AHashSet<MouseButton>, b: MouseButton)
    ensures
        button_set(*final(s)) == button_set(*old(s)).insert(b),
{
    s.insert(b);
}

/// `HashSet::remove` (through `AHashSet`'s deref): removes `b`.
#[verifier::external_body]
pub(crate) fn button_set_remove(s: &mut AHashSet<MouseButton>, b: MouseButton)
    ensures
        button_set(*final(s)) == button_set(*old(s)).remove(b),
{
    s.remove(&b);
}

/// `HashSet::contains` (through `AHashSet`'s deref): whether `b` is held.
#[verifier::external_body]
pub(crate) fn button_set_contains(s: &AHashSet<MouseButton>, b: MouseButton) -> (r: bool)
    ensures
        r == button_set(*s).contains(b),
{
    s.contains(&b)
}

/// `AHashSet::clone`: a set with the same buttons.
#[verifier::external_body]
pub(crate) fn button_set_clone(s: &AHashSet<MouseButton>) -> (c: AHashSet<MouseButton>)
    ensures
        button_set(c) == button_set(*s),
{
    s.clone()
}

// ---------------------------------------------------------------------------
// AHashMap<Action, KeyCode>: action bindings, keyed by the action's name.

/// The bound key of each action name.
pub uninterp spec fn action_bindings(m: AHashMap<Action, KeyCode>) -> Map<Seq<char>, KeyCode>;

/// `AHashMap::new`: an empty map.
#[verifier::external_body]
pub(crate) fn action_bindings_new() -> (m: AHashMap<Action, KeyCode>)
    ensures
        action_bindings(m).dom().is_empty(),
{
    AHashMap::new()
}

/// `AHashMap::insert`: binds `action` to `key`, replacing an earlier binding
/// of an action with the same name.
#[verifier::external_body]
pub(crate) fn action_bindings_insert(m: &mut AHashMap<Action, KeyCode>, action: Action, key: KeyCode)
    ensures
        action_bindings(*final(m)) == action_bindings(*old(m)).insert(action.0@, key),
{
    m.insert(action, key);
}

/// `AHashMap::get`: the key bound to `action`, if any.
#[verifier::external_body]
pub(crate) fn action_bindings_get(m: &AHashMap<Action, KeyCode>, action: Action) -> (r: Option<KeyCode>)
    ensures
        r == (if action_bindings(*m).dom().contains(action.0@) {
            Some(action_bindings(*m)[action.0@])
        } else {
            None
        }),
{
    m.get(&action).copied()
}

// ---------------------------------------------------------------------------
// AHashMap<(u32, u32), u32>: the vertex made at the middle of each mesh edge.

/// The midpoint vertex of each edge, keyed by the edge's two vertex indices.
pub uninterp spec fn midpoint_table(m: AHashMap<(u32, u32), u32>) -> Map<(u32, u32), u32>;

/// `AHashMap::new`: an empty map.
#[verifier::external_body]
pub(crate) fn midpoint_table_new() -> (table: AHashMap<(u32, u32), u32>)
    ensures
        midpoint_table(table).dom().is_empty(),
{
    AHashMap::new()
}

/// `AHashMap::insert`: maps `edge` to `vertex`, replacing an earlier value.
#[verifier::external_body]
pub(crate) fn midpoint_table_insert(m: &mut AHashMap<(u32, u32), u32>, edge: (u32, u32), vertex: u32)
    ensures
        midpoint_table(*final(m)) == midpoint_table(*old(m)).insert(edge, vertex),
{
    m.insert(edge, vertex);
}

/// `AHashMap::get`: the vertex mapped to `edge`, if any.
#[verifier::external_body]
pub(crate) fn midpoint_table_get(m: &AHashMap<(u32, u32), u32>, edge: (u32, u32)) -> (r: Option<u32>)
    ensures
        r == (if midpoint_table(*m).dom().contains(edge) {
            Some(midpoint_table(*m)[edge])
        } else {
            None::<u32>
        }),
{
    m.get(&edge).copied()
}

// ---------------------------------------------------------------------------
// AHashMap<Entity, Entity> and AHashSet<Entity>: parent links, and the
// entities whose world transform is up to date.

/// The parent of each entity that has one.
pub uninterp spec fn parent_table(m: AHashMap<Entity, Entity>) -> Map<Entity, Entity>;

/// `AHashMap::new`: an empty map.
#[verifier::external_body]
pub(crate) fn parent_table_new() -> (m: AHashMap<Entity, Entity>)
    ensures
        parent_table(m).dom().is_empty(),
{
    AHashMap::new()
}

/// `AHashMap::insert`: makes `parent` the parent of `child`, replacing an
/// earlier one.
#[verifier::external_body]
pub(crate) fn parent_table_insert(m: &mut AHashMap<Entity, Entity>, child: Entity, parent: Entity)
    ensures
        parent_table(*final(m)) == parent_table(*old(m)).insert(child, parent),
{
    m.insert(child, parent);
}

/// `AHashMap::get`: `child`'s parent, if any.
#[verifier::external_body]
pub(crate) fn parent_table_get(m: &AHashMap<Entity, Entity>, child: Entity) -> (r: Option<Entity>)
    ensures
        r == (if parent_table(*m).dom().contains(child) {
            Some(parent_table(*m)[child])
        } else {
            None::<Entity>
        }),
{
    m.get(&child).copied()
}

/// The entities a set holds.
pub uninterp spec fn entity_set(s: AHashSet<Entity>) -> Set<Entity>;

/// `AHashSet::new`: an empty set.
#[verifier::external_body]
pub(crate) fn entity_set_new() -> (s: AHashSet<Entity>)
    ensures
        entity_set(s).is_empty(),
{
    AHashSet::new()
}

/// `HashSet::insert` (through `AHashSet`'s deref): adds `e`.
#[verifier::external_body]
pub(crate) fn entity_set_insert(s: &mut AHashSet<Entity>, e: Entity)
    ensures
        entity_set(*final(s)) == entity_set(*old(s)).insert(e),
{
    s.insert(e);
}

/// `HashSet::contains` (through `AHashSet`'s deref): whether `e` is held.
#[verifier::external_body]
pub(crate) fn entity_set_contains(s: &AHashSet<Entity>, e: Entity) -> (b: bool)
    ensures
        b == entity_set(*s).contains(e),
{
    s.contains(&e)
}

} // verus!
