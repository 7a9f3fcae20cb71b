use shiloh::play_mode::{EditorMode, PlayState, TickHooks};

#[test]
fn ready_runs_once_per_session() {
    let mut p: PlayState<u32> = PlayState::default();
    assert_eq!(p.mode(), EditorMode::Edit);
    assert_eq!(p.tick(), TickHooks::Nothing);
    p.enter_play(7);
    assert!(p.is_playing());
    assert_eq!(p.tick(), TickHooks::ReadyThenUpdate);
    assert_eq!(p.tick(), TickHooks::Update);
    assert_eq!(p.tick(), TickHooks::Update);
    assert_eq!(p.exit_play(), Some(7));
    assert_eq!(p.mode(), EditorMode::Edit);
    assert_eq!(p.tick(), TickHooks::Nothing);
    p.enter_play(8);
    assert_eq!(p.tick(), TickHooks::ReadyThenUpdate);
    assert_eq!(EditorMode::default(), EditorMode::Edit);
}

#[test]
fn play_then_stop_restores_snapshot() {
    // The edited scene as its entities' translations, and its camera.
    let mut scene: Vec<[f32; 3]> = vec![[1.0, 2.0, 3.0]];
    let camera = "default camera";

    let mut session: PlayState<(Vec<[f32; 3]>, Option<&str>)> = PlayState::default();
    assert_eq!(session.mode(), EditorMode::Edit);

    session.enter_play((scene.clone(), Some(camera)));
    assert!(session.is_playing());

    // Simulate play-mode mutation that should not survive Stop.
    scene.push([0.0, 0.0, 0.0]);
    assert_eq!(scene.len(), 2);

    let (restored, restored_camera) = session.exit_play().unwrap();
    scene = restored;
    assert_eq!(session.mode(), EditorMode::Edit);
    assert!(restored_camera.is_some());
    assert_eq!(scene.len(), 1);
}

#[test]
fn stop_without_play_hands_back_nothing() {
    let mut p: PlayState<u32> = PlayState::default();
    assert_eq!(p.exit_play(), None);
    assert_eq!(p.mode(), EditorMode::Edit);
    p.enter_play(3);
    assert_eq!(p.tick(), TickHooks::ReadyThenUpdate);
    assert_eq!(p.exit_play(), Some(3));
    assert_eq!(p.exit_play(), None);
}
