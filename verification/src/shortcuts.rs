//! The editor's keyboard shortcuts: what the keys pressed in one frame do to
//! the content drawer, placement, game view and the active viewport tool.

use vstd::prelude::*;

use crate::viewport::ViewportTool;

verus! {

/// The shortcut keys pressed this frame and the modifiers held.
#[derive(Debug, Clone, Copy, Default)]
pub struct FrameKeys {
    pub escape: bool,
    pub space: bool,
    pub g: bool,
    pub f: bool,
    pub d: bool,
    pub q: bool,
    pub w: bool,
    pub e: bool,
    pub r: bool,
    pub num1: bool,
    pub num2: bool,
    pub num3: bool,
    pub num4: bool,
    pub shift: bool,
    pub ctrl: bool,
    /// The platform command key (Cmd on macOS).
    pub command: bool,
    /// Any modifier at all is held.
    pub any_modifier: bool,
}

/// Editor state the shortcuts change.
#[derive(Debug, Clone, Copy, PartialEq, Eq, Structural)]
pub struct ShortcutState {
    pub content_drawer_open: bool,
    /// A world item is being placed.
    pub placing: bool,
    /// Gizmos hidden.
    pub game_view: bool,
    pub tool: ViewportTool,
}

/// What a frame's shortcuts did.
#[derive(Debug, Clone, Copy)]
pub struct ShortcutOutcome {
    pub state: ShortcutState,
    /// New status line, when a shortcut sets one.
    pub status: Option<&'static str>,
    /// Frame the selection.
    pub focus_selection: bool,
    /// Duplicate the selection.
    pub duplicate_selection: bool,
}

/// The tool after the tool keys of `k`, from `tool`: Q, W, E, R pick
/// select, move, rotate, scale; with Shift, 1 to 4 pick select, landscape,
/// foliage, ray picking; a later key in that order wins.
pub open spec fn tool_after(tool: ViewportTool, k: FrameKeys) -> ViewportTool {
    let t1 = if k.q { ViewportTool::Select } else { tool };
    let t2 = if k.w { ViewportTool::Move } else { t1 };
    let t3 = if k.e { ViewportTool::Rotate } else { t2 };
    let t4 = if k.r { ViewportTool::Scale } else { t3 };
    let t5 = if k.shift && k.num1 { ViewportTool::Select } else { t4 };
    let t6 = if k.shift && k.num2 { ViewportTool::Landscape } else { t5 };
    let t7 = if k.shift && k.num3 { ViewportTool::Foliage } else { t6 };
    if k.shift && k.num4 { ViewportTool::RayAccurate } else { t7 }
}

/// What the keys `k` do from state `s`, in the editor's order: Escape
/// closes the content drawer, or else cancels placement; Ctrl/Cmd+Space
/// toggles the drawer; G alone toggles game view; F alone frames the
/// selection; Ctrl/Cmd+D duplicates it; and when not placing, the tool keys
/// pick the tool.
pub open spec fn shortcut_outcome(s: ShortcutState, k: FrameKeys) -> ShortcutOutcome {
    let ctrl = k.ctrl || k.command;
    let (drawer, placing, status0) = if k.escape {
        if s.content_drawer_open {
            (false, s.placing, None)
        } else if s.placing {
            (false, false, Some("Place mode cancelled"))
        } else {
            (false, false, None)
        }
    } else {
        (s.content_drawer_open, s.placing, None)
    };
    let drawer2 = if k.space && ctrl { !drawer } else { drawer };
    let toggle_game = k.g && !k.any_modifier;
    let game = if toggle_game { !s.game_view } else { s.game_view };
    let status = if toggle_game {
        if game { Some("Game view — gizmos hidden") } else { Some("Edit view") }
    } else {
        status0
    };
    ShortcutOutcome {
        state: ShortcutState {
            content_drawer_open: drawer2,
            placing,
            game_view: game,
            tool: if placing { s.tool } else { tool_after(s.tool, k) },
        },
        status,
        focus_selection: k.f && !k.any_modifier,
        duplicate_selection: k.d && ctrl,
    }
}

/// Apply one frame's shortcut keys (see [`shortcut_outcome`]).
pub fn apply_shortcuts(s: ShortcutState, k: FrameKeys) -> (o: ShortcutOutcome)
    ensures
        o == shortcut_outcome(s, k),
{
    let ctrl = k.ctrl || k.command;
    let mut drawer = s.content_drawer_open;
    let mut placing = s.placing;
    let mut status: Option<&'static str> = None;
    if k.escape {
        if drawer {
            drawer = false;
        } else if placing {
            placing = false;
            status = Some("Place mode cancelled");
        }
    }
    if k.space && ctrl {
        drawer = !drawer;
    }
    let mut game = s.game_view;
    if k.g && !k.any_modifier {
        game = !game;
        status = if game { Some("Game view — gizmos hidden") } else { Some("Edit view") };
    }
    let mut tool = s.tool;
    if !placing {
        if k.q {
            tool = ViewportTool::Select;
        }
        if k.w {
            tool = ViewportTool::Move;
        }
        if k.e {
            tool = ViewportTool::Rotate;
        }
        if k.r {
            tool = ViewportTool::Scale;
        }
        if k.shift && k.num1 {
            tool = ViewportTool::Select;
        }
        if k.shift && k.num2 {
            tool = ViewportTool::Landscape;
        }
        if k.shift && k.num3 {
            tool = ViewportTool::Foliage;
        }
        if k.shift && k.num4 {
            tool = ViewportTool::RayAccurate;
        }
    }
    ShortcutOutcome {
        state: ShortcutState { content_drawer_open: drawer, placing, game_view: game, tool },
        status,
        focus_selection: k.f && !k.any_modifier,
        duplicate_selection: k.d && ctrl,
    }
}

/// While an item is being placed, the tool keys do nothing.
pub proof fn law_placing_keeps_tool(s: ShortcutState, k: FrameKeys)
    requires
        s.placing,
        !k.escape,
    ensures
        shortcut_outcome(s, k).state.tool == s.tool,
        shortcut_outcome(s, k).state.placing,
{
}

/// Escape never leaves placement on unless the drawer was open, and it
/// always leaves the drawer closed unless Ctrl/Cmd+Space reopens it.
pub proof fn law_escape_closes_first(s: ShortcutState, k: FrameKeys)
    requires
        k.escape,
        !(k.space && (k.ctrl || k.command)),
    ensures
        !shortcut_outcome(s, k).state.content_drawer_open,
        s.content_drawer_open ==> shortcut_outcome(s, k).state.placing == s.placing,
        !s.content_drawer_open ==> !shortcut_outcome(s, k).state.placing,
{
}

} // verus!
