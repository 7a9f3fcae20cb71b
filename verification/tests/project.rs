use shiloh::components::{ProjectionKind, RigidBodyKind};
use shiloh::project::{layout_file_name, ProjectManifest, PROJECT_FILE_NAME};

#[test]
fn new_project_manifest() {
    let m = ProjectManifest::new_project("Valley", "0.1.0");
    assert_eq!(m.name, "Valley");
    assert_eq!(m.engine_version, "0.1.0");
    assert_eq!(m.default_scene, "scenes/main.json");
    assert_eq!(PROJECT_FILE_NAME, "shiloh.project.json");
}

#[test]
fn layout_file_names_are_sanitized() {
    assert_eq!(layout_file_name("Focus"), "Focus.json");
    assert_eq!(layout_file_name("my layout/2"), "my_layout_2.json");
    assert_eq!(layout_file_name("a-b_c"), "a-b_c.json");
    assert_eq!(layout_file_name(""), ".json");
}

#[test]
fn component_kinds() {
    assert_eq!(ProjectionKind::default(), ProjectionKind::Perspective);
    assert_ne!(RigidBodyKind::Static, RigidBodyKind::Dynamic);
}
