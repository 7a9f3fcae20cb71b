use shiloh::console::{Console, CONSOLE_CAPACITY};

#[test]
fn console_keeps_lines_in_order() {
    let mut c = Console::new();
    assert!(c.lines().is_empty());
    c.log("INFO", "Spawned Entity", [220, 225, 235]);
    c.log("WARNING", "Import failed", [230, 160, 60]);
    let lines = c.lines();
    assert_eq!(lines.len(), 2);
    assert_eq!(lines[0].level, "INFO");
    assert_eq!(lines[0].message, "Spawned Entity");
    assert_eq!(lines[1].color, [230, 160, 60]);
}

#[test]
fn console_drops_oldest_beyond_capacity() {
    let mut c = Console::default();
    for i in 0..205 {
        c.log("INFO", &format!("line {i}"), [1, 2, 3]);
    }
    let lines = c.lines();
    assert_eq!(CONSOLE_CAPACITY, 200);
    assert_eq!(lines.len(), 200);
    assert_eq!(lines[0].message, "line 5");
    assert_eq!(lines[199].message, "line 204");
}
