use shiloh::import::{
    accepts_url, check_import_url, check_response_body, filename_from_url, unique_name_candidate,
    ImportError, NUMBERED_ATTEMPTS,
};

#[test]
fn file_names_from_urls() {
    assert_eq!(filename_from_url("https://x.org/a/b/tree.glb?v=2"), "tree.glb");
    assert_eq!(filename_from_url("https://x.org/a/"), "import.bin");
    assert_eq!(filename_from_url("https://x.org/my file(1).png"), "my_file_1_.png");
    assert_eq!(filename_from_url("plain-name_1.gltf"), "plain-name_1.gltf");
    assert_eq!(filename_from_url("https://x.org/é.png"), "_.png");
    assert_eq!(filename_from_url(""), "import.bin");
    assert_eq!(filename_from_url("https://x.org/dir?q=/a/b"), "dir");
}

#[test]
fn url_must_be_http() {
    assert!(accepts_url("https://a"));
    assert!(accepts_url("http://a"));
    assert!(!accepts_url("ftp://a"));
    assert!(!accepts_url(" https://a"));
    match check_import_url("  https://x.org/a.glb \n") {
        Ok(t) => assert_eq!(t, "https://x.org/a.glb"),
        Err(e) => panic!("unexpected {e:?}"),
    }
    assert!(matches!(check_import_url("file:///etc/passwd"), Err(ImportError::InvalidUrl)));
    assert!(matches!(check_import_url("   "), Err(ImportError::InvalidUrl)));
}

#[test]
fn empty_body_is_http_error() {
    match check_response_body(&Vec::new()) {
        Err(ImportError::Http(m)) => assert_eq!(m, "empty response body"),
        other => panic!("unexpected {other:?}"),
    }
    assert!(check_response_body(&vec![0u8]).is_ok());
}

#[test]
fn numbered_candidates() {
    assert_eq!(unique_name_candidate(Some("tree"), Some("glb"), 1), Some("tree_1.glb".to_string()));
    assert_eq!(unique_name_candidate(Some("tree"), None, 42), Some("tree_42".to_string()));
    assert_eq!(unique_name_candidate(None, Some("png"), 999), Some("import_999.png".to_string()));
    assert_eq!(unique_name_candidate(Some("a"), None, 0), None);
    assert_eq!(unique_name_candidate(Some("a"), None, NUMBERED_ATTEMPTS + 1), None);
    assert_eq!(NUMBERED_ATTEMPTS, 999);
}

#[test]
fn dot_names_stay_in_import_folder() {
    assert_eq!(filename_from_url("https://h/."), "import.bin");
    assert_eq!(filename_from_url("https://h/.."), "import.bin");
    assert_eq!(filename_from_url("https://h/..?x=1"), "import.bin");
    assert_eq!(filename_from_url("https://h/.a"), ".a");
    assert_eq!(filename_from_url("https://h/..."), "...");
}
