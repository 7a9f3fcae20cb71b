use shiloh::highlight::{highlight_rhai_spans, HighlightKind};

fn spans(text: &str) -> Vec<(HighlightKind, String)> {
    highlight_rhai_spans(text).into_iter().map(|s| (s.kind, s.text)).collect()
}

#[test]
fn highlight_classifies_tokens() {
    let got = spans("fn on_ready() { log(\"hi\"); x = 3.5; } // done\nlet");
    let kinds: Vec<HighlightKind> = got.iter().map(|(k, _)| *k).collect();
    assert_eq!(got[0], (HighlightKind::Keyword, "fn".to_string()));
    assert_eq!(got[1], (HighlightKind::Other, " ".to_string()));
    assert_eq!(got[2], (HighlightKind::Api, "on_ready".to_string()));
    assert!(got.contains(&(HighlightKind::Api, "log".to_string())));
    assert!(got.contains(&(HighlightKind::Str, "\"hi\"".to_string())));
    assert!(got.contains(&(HighlightKind::Ident, "x".to_string())));
    assert!(got.contains(&(HighlightKind::Number, "3.5".to_string())));
    assert!(got.contains(&(HighlightKind::Comment, "// done".to_string())));
    assert_eq!(got.last().unwrap(), &(HighlightKind::Keyword, "let".to_string()));
    assert!(kinds.contains(&HighlightKind::Other));
}

#[test]
fn highlight_spans_rebuild_text() {
    for text in ["", "a", "fn f() { \"a\\\"b\" }", "//x", "é ü 12_3 _under", "\"unterminated \\"] {
        let joined: String = spans(text).into_iter().map(|(_, t)| t).collect();
        assert_eq!(joined, text);
        assert!(spans(text).iter().all(|(_, t)| !t.is_empty()));
    }
}

#[test]
fn escaped_quote_stays_in_string() {
    let got = spans("\"a\\\"b\" c");
    assert_eq!(got[0], (HighlightKind::Str, "\"a\\\"b\"".to_string()));
    assert_eq!(got[1], (HighlightKind::Other, " ".to_string()));
    assert_eq!(got[2], (HighlightKind::Ident, "c".to_string()));
}
