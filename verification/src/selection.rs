//! Editor selection set with replace / additive / toggle multi-select.

use vstd::prelude::*;

verus! {

/// A scene entity: a slot index and the generation of its occupant.
#[derive(Debug, Clone, Copy, PartialEq, Eq, Structural, Hash)]
pub struct Entity {
    pub index: u32,
    pub generation: u32,
}

impl Entity {
    pub fn index(self) -> (i: u32)
        ensures
            i == self.index,
    {
        self.index
    }
}

/// How a click changes the selection.
#[derive(Debug, Clone, Copy, PartialEq, Eq, Structural)]
pub enum SelectMode {
    /// Replace the selection with a single entity (default click).
    Replace,
    /// Ctrl-click: toggle membership.
    Toggle,
    /// Shift-click: additive (keep existing, add if missing).
    Add,
}

impl Default for SelectMode {
    fn default() -> (m: Self)
        ensures
            m == SelectMode::Replace,
    {
        SelectMode::Replace
    }
}

/// The mode a click selects with, from the held modifiers: Shift adds,
/// else Command or Ctrl toggles, else the click replaces.
pub fn select_mode_for_modifiers(shift: bool, command: bool, ctrl: bool) -> (m: SelectMode)
    ensures
        m == if shift {
            SelectMode::Add
        } else if command || ctrl {
            SelectMode::Toggle
        } else {
            SelectMode::Replace
        },
{
    if shift {
        SelectMode::Add
    } else if command || ctrl {
        SelectMode::Toggle
    } else {
        SelectMode::Replace
    }
}

/// Selected entities, the primary one first.
#[derive(Debug, Clone)]
pub struct Selection {
    pub entities: Vec<Entity>,
}

/// No entity is listed twice.
pub open spec fn no_duplicates(s: Seq<Entity>) -> bool {
    forall|i: int, j: int| 0 <= i < j < s.len() ==> s[i] != s[j]
}

/// Index of the first occurrence of `e` in `s`.
pub open spec fn first_index(s: Seq<Entity>, e: Entity) -> int
    recommends
        s.contains(e),
{
    choose|i: int| 0 <= i < s.len() && s[i] == e && forall|j: int| 0 <= j < i ==> s[j] != e
}

/// What `apply` makes of the selection `s`.
pub open spec fn applied(s: Seq<Entity>, e: Entity, mode: SelectMode) -> Seq<Entity> {
    match mode {
        SelectMode::Replace => seq![e],
        SelectMode::Add => if s.contains(e) { s } else { s.push(e) },
        SelectMode::Toggle => if s.contains(e) { s.remove(first_index(s, e)) } else { s.push(e) },
    }
}

proof fn lemma_first_index(s: Seq<Entity>, e: Entity, i: int)
    requires
        0 <= i < s.len(),
        s[i] == e,
        forall|j: int| 0 <= j < i ==> s[j] != e,
    ensures
        first_index(s, e) == i,
{
    let k = first_index(s, e);
    assert(0 <= k < s.len() && s[k] == e && forall|j: int| 0 <= j < k ==> s[j] != e);
    if k < i {
        assert(s[k] != e);
    }
    if k > i {
        assert(s[i] != e);
    }
}

impl Default for Selection {
    fn default() -> (s: Self)
        ensures
            s.entities@ == Seq::<Entity>::empty(),
    {
        Selection { entities: Vec::new() }
    }
}

impl Selection {
    pub fn clear(&mut self)
        ensures
            final(self).entities@ == Seq::<Entity>::empty(),
    {
        self.entities.clear();
    }

    /// Select exactly `entity`.
    pub fn select(&mut self, entity: Entity)
        ensures
            final(self).entities@ == seq![entity],
    {
        self.apply(entity, SelectMode::Replace);
    }

    /// Where `entity` is listed, if it is.
    fn position(&self, entity: Entity) -> (r: Option<usize>)
        ensures
            match r {
                Some(i) => {
                    &&& i < self.entities@.len()
                    &&& self.entities@[i as int] == entity
                    &&& forall|j: int| 0 <= j < i ==> self.entities@[j] != entity
                },
                None => !self.entities@.contains(entity),
            },
    {
        let mut i: usize = 0;
        while i < self.entities.len()
            invariant
                i <= self.entities@.len(),
                forall|j: int| 0 <= j < i ==> self.entities@[j] != entity,
            decreases self.entities.len() - i,
        {
            if self.entities[i] == entity {
                return Some(i);
            }
            i += 1;
        }
        None
    }

    /// Change the selection by a click on `entity` in `mode` (see [`applied`]).
    /// A selection without duplicates keeps none.
    pub fn apply(&mut self, entity: Entity, mode: SelectMode)
        ensures
            final(self).entities@ == applied(old(self).entities@, entity, mode),
            no_duplicates(old(self).entities@) ==> no_duplicates(final(self).entities@),
    {
        match mode {
            SelectMode::Replace => {
                self.entities.clear();
                self.entities.push(entity);
                assert(self.entities@ =~= seq![entity]);
            },
            SelectMode::Add => {
                if !self.contains(entity) {
                    self.entities.push(entity);
                }
            },
            SelectMode::Toggle => {
                let ghost before = self.entities@;
                match self.position(entity) {
                    Some(i) => {
                        proof {
                            lemma_first_index(before, entity, i as int);
                        }
                        self.entities.remove(i);
                    },
                    None => {
                        self.entities.push(entity);
                    },
                }
            },
        }
    }

    pub fn contains(&self, entity: Entity) -> (b: bool)
        ensures
            b == self.entities@.contains(entity),
    {
        match self.position(entity) {
            Some(i) => {
                assert(self.entities@[i as int] == entity);
                true
            },
            None => false,
        }
    }

    /// The first selected entity.
    pub fn primary(&self) -> (r: Option<Entity>)
        ensures
            r == if self.entities@.len() > 0 { Some(self.entities@[0]) } else { None::<Entity> },
    {
        if self.entities.len() > 0 {
            Some(self.entities[0])
        } else {
            None
        }
    }

    pub fn len(&self) -> (n: usize)
        ensures
            n == self.entities@.len(),
    {
        self.entities.len()
    }

    pub fn is_empty(&self) -> (b: bool)
        ensures
            b == (self.entities@.len() == 0),
    {
        self.entities.len() == 0
    }
}

// ---------------------------------------------------------------------------
// Laws.

/// After a click in any mode but a toggle of a selected entity, the clicked
/// entity is selected; a toggle of a selected entity in a selection without
/// duplicates deselects it.
pub proof fn law_click_membership(s: Seq<Entity>, e: Entity, mode: SelectMode)
    requires
        no_duplicates(s),
    ensures
        (mode == SelectMode::Toggle && s.contains(e)) ==> !applied(s, e, mode).contains(e),
        !(mode == SelectMode::Toggle && s.contains(e)) ==> applied(s, e, mode).contains(e),
{
    match mode {
        SelectMode::Replace => {
            assert(applied(s, e, mode)[0] == e);
        },
        SelectMode::Add => {
            if !s.contains(e) {
                assert(applied(s, e, mode)[s.len() as int] == e);
            }
        },
        SelectMode::Toggle => {
            if s.contains(e) {
                let k = first_index(s, e);
                let t = s.remove(k);
                if t.contains(e) {
                    let m = choose|m: int| 0 <= m < t.len() && t[m] == e;
                    if m < k {
                        assert(s[m] == e);
                    } else {
                        assert(s[m + 1] == e);
                    }
                }
            } else {
                assert(applied(s, e, mode)[s.len() as int] == e);
            }
        },
    }
}

/// Adding is idempotent: a second shift-click on the same entity changes
/// nothing.
pub proof fn law_add_idempotent(s: Seq<Entity>, e: Entity)
    ensures
        applied(applied(s, e, SelectMode::Add), e, SelectMode::Add) == applied(s, e, SelectMode::Add),
{
    if !s.contains(e) {
        assert(s.push(e)[s.len() as int] == e);
    }
}

/// Toggling an unselected entity twice gives the selection back exactly.
pub proof fn law_toggle_twice_unselected(s: Seq<Entity>, e: Entity)
    requires
        !s.contains(e),
    ensures
        applied(applied(s, e, SelectMode::Toggle), e, SelectMode::Toggle) == s,
{
    let t = s.push(e);
    assert(t[s.len() as int] == e);
    lemma_first_index(t, e, s.len() as int);
    assert(t.remove(s.len() as int) =~= s);
}

/// Toggling a selected entity twice, in a selection without duplicates,
/// keeps the same entities selected, the toggled one moved last.
pub proof fn law_toggle_twice_selected(s: Seq<Entity>, e: Entity)
    requires
        no_duplicates(s),
        s.contains(e),
    ensures
        applied(applied(s, e, SelectMode::Toggle), e, SelectMode::Toggle) == s.remove(
            first_index(s, e),
        ).push(e),
        applied(applied(s, e, SelectMode::Toggle), e, SelectMode::Toggle).to_set() == s.to_set(),
{
    law_click_membership(s, e, SelectMode::Toggle);
    let k = first_index(s, e);
    let t = s.remove(k);
    let u = t.push(e);
    assert forall|x: Entity| u.to_set().contains(x) <==> s.to_set().contains(x) by {
        if u.contains(x) {
            let m = choose|m: int| 0 <= m < u.len() && u[m] == x;
            if m == t.len() {
                assert(s[k] == x);
            } else if m < k {
                assert(s[m] == x);
            } else {
                assert(s[m + 1] == x);
            }
        }
        if s.contains(x) {
            let m = choose|m: int| 0 <= m < s.len() && s[m] == x;
            if m == k {
                assert(u[t.len() as int] == x);
            } else if m < k {
                assert(u[m] == x);
            } else {
                assert(u[m - 1] == x);
            }
        }
    }
    assert(u.to_set() =~= s.to_set());
}

} // verus!
