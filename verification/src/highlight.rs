//! Rhai syntax highlighting for the script editor: the source is cut into
//! spans (comments, strings, keywords, host API names, identifiers, numbers,
//! single other characters), each of which the editor paints in its colour.

use vstd::prelude::*;

use crate::text::{
    chars_of, is_ascii_alpha, is_ascii_alpha_exec, is_ascii_digit, is_ascii_digit_exec,
    is_ident_char, is_ident_char_exec, str_eq,
};

verus! {

/// What a highlighted span is.
#[derive(Debug, Clone, Copy, PartialEq, Eq, Structural)]
pub enum HighlightKind {
    /// `//` up to the end of the line.
    Comment,
    /// A double-quoted string, escapes included.
    Str,
    /// A Rhai keyword.
    Keyword,
    /// A lifecycle hook or host API name.
    Api,
    /// Any other identifier.
    Ident,
    Number,
    /// Any other single character.
    Other,
}

/// One span of highlighted source.
#[derive(Debug, Clone)]
pub struct HighlightSpan {
    pub kind: HighlightKind,
    pub text: String,
}

/// The Rhai keywords the editor highlights.
pub open spec fn rhai_keywords() -> Seq<Seq<char>> {
    seq![
        "fn"@, "let"@, "const"@, "if"@, "else"@, "while"@, "for"@, "in"@, "return"@,
        "true"@, "false"@, "switch"@, "case"@, "do"@, "until"@, "loop"@, "break"@,
        "continue"@,
    ]
}

/// The lifecycle hooks and host API calls the editor highlights.
pub open spec fn rhai_api_names() -> Seq<Seq<char>> {
    seq![
        "on_ready"@, "on_update"@, "log"@, "say"@, "set_translation"@, "spawn_named"@,
        "emit_signal"@, "play_audio"@,
    ]
}

/// Number characters after the first digit: digits, `.` and `_`.
pub open spec fn is_number_char(c: char) -> bool {
    is_ascii_digit(c) || c == '.' || c == '_'
}

/// Index of the first `'\n'` at or after `k`, or the length.
pub open spec fn line_end(s: Seq<char>, k: int) -> int
    decreases s.len() - k,
{
    if k >= s.len() {
        s.len() as int
    } else if s[k] == '\n' {
        k
    } else {
        line_end(s, k + 1)
    }
}

/// End of a string literal whose body starts at `k`: just past the closing
/// quote, or the length when unclosed; a backslash skips the next character.
pub open spec fn quoted_end(s: Seq<char>, k: int) -> int
    decreases s.len() - k,
{
    if k >= s.len() {
        s.len() as int
    } else if s[k] == '\\' && k + 1 < s.len() {
        quoted_end(s, k + 2)
    } else if s[k] == '"' {
        k + 1
    } else {
        quoted_end(s, k + 1)
    }
}

/// Index of the first character at or after `k` that is not an identifier
/// character, or the length.
pub open spec fn ident_end(s: Seq<char>, k: int) -> int
    decreases s.len() - k,
{
    if k >= s.len() {
        s.len() as int
    } else if !is_ident_char(s[k]) {
        k
    } else {
        ident_end(s, k + 1)
    }
}

/// Index of the first character at or after `k` that is not a number
/// character, or the length.
pub open spec fn number_end(s: Seq<char>, k: int) -> int
    decreases s.len() - k,
{
    if k >= s.len() {
        s.len() as int
    } else if !is_number_char(s[k]) {
        k
    } else {
        number_end(s, k + 1)
    }
}

/// A `//` starts at `p`.
pub open spec fn comment_at(s: Seq<char>, p: int) -> bool {
    p + 1 < s.len() && s[p] == '/' && s[p + 1] == '/'
}

/// End of the span that starts at `p`.
pub open spec fn span_end(s: Seq<char>, p: int) -> int {
    if comment_at(s, p) {
        line_end(s, p)
    } else if s[p] == '"' {
        quoted_end(s, p + 1)
    } else if is_ascii_alpha(s[p]) || s[p] == '_' {
        ident_end(s, p + 1)
    } else if is_ascii_digit(s[p]) {
        number_end(s, p + 1)
    } else {
        p + 1
    }
}

/// Kind of the span that starts at `p`.
pub open spec fn span_kind(s: Seq<char>, p: int) -> HighlightKind {
    if comment_at(s, p) {
        HighlightKind::Comment
    } else if s[p] == '"' {
        HighlightKind::Str
    } else if is_ascii_alpha(s[p]) || s[p] == '_' {
        let word = s.subrange(p, ident_end(s, p + 1));
        if rhai_keywords().contains(word) {
            HighlightKind::Keyword
        } else if rhai_api_names().contains(word) {
            HighlightKind::Api
        } else {
            HighlightKind::Ident
        }
    } else if is_ascii_digit(s[p]) {
        HighlightKind::Number
    } else {
        HighlightKind::Other
    }
}

proof fn lemma_line_end(s: Seq<char>, k: int)
    requires
        0 <= k <= s.len(),
    ensures
        k <= line_end(s, k) <= s.len(),
    decreases s.len() - k,
{
    if k < s.len() && s[k] != '\n' {
        lemma_line_end(s, k + 1);
    }
}

proof fn lemma_quoted_end(s: Seq<char>, k: int)
    requires
        0 <= k <= s.len(),
    ensures
        k <= quoted_end(s, k) <= s.len(),
    decreases s.len() - k,
{
    if k < s.len() {
        if s[k] == '\\' && k + 1 < s.len() {
            lemma_quoted_end(s, k + 2);
        } else if s[k] != '"' {
            lemma_quoted_end(s, k + 1);
        }
    }
}

proof fn lemma_ident_end(s: Seq<char>, k: int)
    requires
        0 <= k <= s.len(),
    ensures
        k <= ident_end(s, k) <= s.len(),
    decreases s.len() - k,
{
    if k < s.len() && is_ident_char(s[k]) {
        lemma_ident_end(s, k + 1);
    }
}

proof fn lemma_number_end(s: Seq<char>, k: int)
    requires
        0 <= k <= s.len(),
    ensures
        k <= number_end(s, k) <= s.len(),
    decreases s.len() - k,
{
    if k < s.len() && is_number_char(s[k]) {
        lemma_number_end(s, k + 1);
    }
}

/// Every span is non-empty and ends within the text.
pub proof fn lemma_span_end(s: Seq<char>, p: int)
    requires
        0 <= p < s.len(),
    ensures
        p < span_end(s, p) <= s.len(),
{
    if comment_at(s, p) {
        lemma_line_end(s, p + 1);
    } else if s[p] == '"' {
        lemma_quoted_end(s, p + 1);
    } else if is_ascii_alpha(s[p]) || s[p] == '_' {
        lemma_ident_end(s, p + 1);
    } else if is_ascii_digit(s[p]) {
        lemma_number_end(s, p + 1);
    }
}

/// The spans of `s` from position `p` on: kind and text of each, in order.
pub open spec fn spans_from(s: Seq<char>, p: int) -> Seq<(HighlightKind, Seq<char>)>
    decreases s.len() - p,
{
    if p < 0 || p >= s.len() {
        Seq::empty()
    } else {
        let e = span_end(s, p);
        proof {
            lemma_span_end(s, p);
        }
        seq![(span_kind(s, p), s.subrange(p, e))] + spans_from(s, e)
    }
}

/// The highlighted spans of `s`.
pub open spec fn rhai_spans(s: Seq<char>) -> Seq<(HighlightKind, Seq<char>)> {
    spans_from(s, 0)
}

/// The texts of `spans` joined in order.
pub open spec fn joined(spans: Seq<(HighlightKind, Seq<char>)>) -> Seq<char>
    decreases spans.len(),
{
    if spans.len() == 0 {
        Seq::empty()
    } else {
        spans[0].1 + joined(spans.drop_first())
    }
}

proof fn lemma_joined_from(s: Seq<char>, p: int)
    requires
        0 <= p <= s.len(),
    ensures
        joined(spans_from(s, p)) == s.subrange(p, s.len() as int),
        forall|i: int| 0 <= i < spans_from(s, p).len() ==> (#[trigger] spans_from(s, p)[i]).1.len() > 0,
    decreases s.len() - p,
{
    if p < s.len() {
        let e = span_end(s, p);
        lemma_span_end(s, p);
        lemma_joined_from(s, e);
        let sp = spans_from(s, p);
        assert(sp.drop_first() =~= spans_from(s, e));
        assert(s.subrange(p, e) + s.subrange(e, s.len() as int) =~= s.subrange(p, s.len() as int));
        assert forall|i: int| 0 <= i < sp.len() implies (#[trigger] sp[i]).1.len() > 0 by {
            if i > 0 {
                assert(sp[i] == spans_from(s, e)[i - 1]);
            }
        }
    } else {
        assert(s.subrange(p, s.len() as int) =~= Seq::<char>::empty());
    }
}

/// Highlighting loses and adds nothing: the spans, joined in order, are the
/// source text, and none of them is empty.
pub proof fn law_spans_rebuild_text(s: Seq<char>)
    ensures
        joined(rhai_spans(s)) == s,
        forall|i: int| 0 <= i < rhai_spans(s).len() ==> (#[trigger] rhai_spans(s)[i]).1.len() > 0,
{
    lemma_joined_from(s, 0);
    assert(s.subrange(0, s.len() as int) =~= s);
}

fn keyword_list() -> (r: [&'static str; 18])
    ensures
        r@.map_values(|w: &str| w@) == rhai_keywords(),
{
    let r = [
        "fn", "let", "const", "if", "else", "while", "for", "in", "return", "true", "false",
        "switch", "case", "do", "until", "loop", "break", "continue",
    ];
    assert(r@.map_values(|w: &str| w@) =~= rhai_keywords());
    r
}

fn api_list() -> (r: [&'static str; 8])
    ensures
        r@.map_values(|w: &str| w@) == rhai_api_names(),
{
    let r = [
        "on_ready", "on_update", "log", "say", "set_translation", "spawn_named", "emit_signal",
        "play_audio",
    ];
    assert(r@.map_values(|w: &str| w@) =~= rhai_api_names());
    r
}

/// Whether `word` is one of `list`.
fn listed(word: &str, list: &[&'static str]) -> (b: bool)
    ensures
        b == list@.map_values(|w: &str| w@).contains(word@),
{
    let ghost views = list@.map_values(|w: &str| w@);
    let mut i: usize = 0;
    while i < list.len()
        invariant
            views == list@.map_values(|w: &str| w@),
            i <= list@.len(),
            forall|k: int| 0 <= k < i ==> views[k] != word@,
        decreases list.len() - i,
    {
        if str_eq(list[i], word) {
            assert(views[i as int] == word@);
            return true;
        }
        i += 1;
    }
    false
}

/// An identifier character when `ident`, else a number character.
fn run_char(c: char, ident: bool) -> (b: bool)
    ensures
        b == if ident { is_ident_char(c) } else { is_number_char(c) },
{
    if ident {
        is_ident_char_exec(c)
    } else {
        is_ascii_digit_exec(c) || c == '.' || c == '_'
    }
}

/// End of the run of characters satisfying `ident` (identifier characters)
/// or else number characters, from `k`.
fn run_end(cs: &Vec<char>, k: usize, ident: bool) -> (e: usize)
    requires
        k <= cs@.len(),
    ensures
        e == if ident { ident_end(cs@, k as int) } else { number_end(cs@, k as int) },
{
    let n = cs.len();
    let mut e = k;
    while e < n && run_char(cs[e], ident)
        invariant
            n == cs@.len(),
            k <= e <= n,
            ident ==> ident_end(cs@, e as int) == ident_end(cs@, k as int),
            !ident ==> number_end(cs@, e as int) == number_end(cs@, k as int),
        decreases n - e,
    {
        e += 1;
    }
    e
}

/// Kind and end of the span that starts at `p`.
fn next_span(text: &str, cs: &Vec<char>, p: usize) -> (r: (HighlightKind, usize))
    requires
        cs@ == text@,
        p < cs@.len(),
    ensures
        r.0 == span_kind(cs@, p as int),
        r.1 == span_end(cs@, p as int),
{
    let n = cs.len();
    let c = cs[p];
    if p + 1 < n && c == '/' && cs[p + 1] == '/' {
        let mut e = p;
        while e < n && cs[e] != '\n'
            invariant
                n == cs@.len(),
                p <= e <= n,
                line_end(cs@, e as int) == line_end(cs@, p as int),
            decreases n - e,
        {
            e += 1;
        }
        (HighlightKind::Comment, e)
    } else if c == '"' {
        let mut e = p + 1;
        let mut closed = false;
        while !closed && e < n
            invariant
                n == cs@.len(),
                p < e <= n,
                closed ==> e == quoted_end(cs@, (p + 1) as int),
                !closed ==> quoted_end(cs@, e as int) == quoted_end(cs@, (p + 1) as int),
            decreases n - e,
        {
            if cs[e] == '\\' && e + 1 < n {
                e += 2;
            } else if cs[e] == '"' {
                e += 1;
                closed = true;
            } else {
                e += 1;
            }
        }
        (HighlightKind::Str, e)
    } else if is_ascii_alpha_exec(c) || c == '_' {
        let e = run_end(cs, p + 1, true);
        proof {
            lemma_ident_end(cs@, p + 1);
        }
        let word = text.substring_char(p, e);
        let kind = if listed(word, &keyword_list()) {
            HighlightKind::Keyword
        } else if listed(word, &api_list()) {
            HighlightKind::Api
        } else {
            HighlightKind::Ident
        };
        (kind, e)
    } else if is_ascii_digit_exec(c) {
        (HighlightKind::Number, run_end(cs, p + 1, false))
    } else {
        (HighlightKind::Other, p + 1)
    }
}

pub open spec fn span_view(s: HighlightSpan) -> (HighlightKind, Seq<char>) {
    (s.kind, s.text@)
}

/// Cut Rhai source into highlighted spans, in order.
pub fn highlight_rhai_spans(text: &str) -> (spans: Vec<HighlightSpan>)
    ensures
        spans@.map_values(|s: HighlightSpan| span_view(s)) == rhai_spans(text@),
{
    let cs = chars_of(text);
    let n = cs.len();
    let mut out: Vec<HighlightSpan> = Vec::new();
    let mut p: usize = 0;
    proof {
        assert(out@.map_values(|s: HighlightSpan| span_view(s)) =~= Seq::<(HighlightKind, Seq<char>)>::empty());
    }
    while p < n
        invariant
            cs@ == text@,
            n == cs@.len(),
            p <= n,
            out@.map_values(|s: HighlightSpan| span_view(s)) + spans_from(cs@, p as int)
                == spans_from(cs@, 0),
        decreases n - p,
    {
        let (kind, e) = next_span(text, &cs, p);
        proof {
            lemma_span_end(cs@, p as int);
        }
        let piece = String::from_str(text.substring_char(p, e));
        let ghost before = out@;
        out.push(HighlightSpan { kind, text: piece });
        proof {
            assert(out@.map_values(|s: HighlightSpan| span_view(s)) =~= before.map_values(
                |s: HighlightSpan| span_view(s),
            ).push((kind, cs@.subrange(p as int, e as int))));
            assert(spans_from(cs@, p as int) =~= seq![(kind, cs@.subrange(p as int, e as int))]
                + spans_from(cs@, e as int));
        }
        p = e;
    }
    proof {
        assert(spans_from(cs@, p as int) =~= Seq::<(HighlightKind, Seq<char>)>::empty());
    }
    out
}

} // verus!
