use shiloh::shortcuts::{apply_shortcuts, FrameKeys, ShortcutState};
use shiloh::viewport::ViewportTool;

fn state() -> ShortcutState {
    ShortcutState { content_drawer_open: false, placing: false, game_view: false, tool: ViewportTool::Select }
}

#[test]
fn tool_keys_pick_tools() {
    let o = apply_shortcuts(state(), FrameKeys { w: true, ..Default::default() });
    assert_eq!(o.state.tool, ViewportTool::Move);
    let o = apply_shortcuts(state(), FrameKeys { num2: true, shift: true, any_modifier: true, ..Default::default() });
    assert_eq!(o.state.tool, ViewportTool::Landscape);
    let o = apply_shortcuts(state(), FrameKeys { num4: true, ..Default::default() });
    assert_eq!(o.state.tool, ViewportTool::Select);
    let o = apply_shortcuts(state(), FrameKeys { q: true, r: true, ..Default::default() });
    assert_eq!(o.state.tool, ViewportTool::Scale);
}

#[test]
fn escape_closes_drawer_then_cancels_placement() {
    let s = ShortcutState { content_drawer_open: true, placing: true, ..state() };
    let o = apply_shortcuts(s, FrameKeys { escape: true, e: true, ..Default::default() });
    assert!(!o.state.content_drawer_open);
    assert!(o.state.placing);
    assert_eq!(o.state.tool, ViewportTool::Select);
    assert_eq!(o.status, None);
    let o = apply_shortcuts(o.state, FrameKeys { escape: true, e: true, ..Default::default() });
    assert!(!o.state.placing);
    assert_eq!(o.status, Some("Place mode cancelled"));
    assert_eq!(o.state.tool, ViewportTool::Rotate);
}

#[test]
fn toggles_and_actions() {
    let o = apply_shortcuts(state(), FrameKeys { space: true, ctrl: true, any_modifier: true, ..Default::default() });
    assert!(o.state.content_drawer_open);
    let o = apply_shortcuts(state(), FrameKeys { g: true, ..Default::default() });
    assert!(o.state.game_view);
    assert_eq!(o.status, Some("Game view — gizmos hidden"));
    let o = apply_shortcuts(o.state, FrameKeys { g: true, ..Default::default() });
    assert_eq!(o.status, Some("Edit view"));
    let o = apply_shortcuts(state(), FrameKeys { g: true, shift: true, any_modifier: true, ..Default::default() });
    assert!(!o.state.game_view);
    let o = apply_shortcuts(state(), FrameKeys { f: true, d: true, command: true, any_modifier: true, ..Default::default() });
    assert!(!o.focus_selection);
    assert!(o.duplicate_selection);
    let o = apply_shortcuts(state(), FrameKeys { f: true, ..Default::default() });
    assert!(o.focus_selection);
}

#[test]
fn tool_labels() {
    assert_eq!(ViewportTool::RayAccurate.label(), "RayAccurate");
    assert_eq!(ViewportTool::RayAccurate.strip_label(), "Ray");
    assert_eq!(ViewportTool::Landscape.strip_label(), "Land");
    assert_eq!(ViewportTool::Scale.hint(), "Scale · drag selection · R tool · MMB orbit");
}
