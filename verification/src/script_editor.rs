//! Designer script editor state: the Rhai API catalog, autocomplete of the
//! word before the cursor, and applying a completion.
//!
//! Drawing the editor and the file system work (listing, reading, writing)
//! are done by the UI layer, which hands the results to this state.

use vstd::prelude::*;

use crate::text::{
    chars_of, contains_chars, contains_seq, is_ident_char, is_ident_char_exec, lower, lower_chars_of,
    names_sorted, sort_names, string_views,
};

verus! {

/// Category of an autocomplete entry.
#[derive(Debug, Clone, Copy, PartialEq, Eq, Structural)]
pub enum SymbolKind {
    Keyword,
    Lifecycle,
    Api,
    Snippet,
}

impl SymbolKind {
    /// Short label shown beside a completion.
    pub fn label(self) -> (r: &'static str)
        ensures
            r@ == symbol_kind_label(self)@,
    {
        match self {
            SymbolKind::Keyword => "keyword",
            SymbolKind::Lifecycle => "lifecycle",
            SymbolKind::Api => "api",
            SymbolKind::Snippet => "snippet",
        }
    }
}

/// Label of each symbol kind.
pub open spec fn symbol_kind_label(k: SymbolKind) -> &'static str {
    match k {
        SymbolKind::Keyword => "keyword",
        SymbolKind::Lifecycle => "lifecycle",
        SymbolKind::Api => "api",
        SymbolKind::Snippet => "snippet",
    }
}

/// One API / keyword entry for autocomplete and hover docs.
#[derive(Debug, Clone, Copy)]
pub struct ScriptSymbol {
    pub name: &'static str,
    pub kind: SymbolKind,
    pub signature: &'static str,
    pub docs: &'static str,
    /// Text inserted when completing (may include `(…)` placeholders).
    pub insert: &'static str,
}

/// The sandbox API and Rhai keywords offered by autocomplete, in order.
pub open spec fn catalog() -> Seq<ScriptSymbol> {
    seq![
        ScriptSymbol {
            name: "fn",
            kind: SymbolKind::Keyword,
            signature: "fn name(args) { … }",
            docs: "Declare a function.",
            insert: "fn ",
        },
        ScriptSymbol {
            name: "let",
            kind: SymbolKind::Keyword,
            signature: "let name = value;",
            docs: "Mutable local binding.",
            insert: "let ",
        },
        ScriptSymbol {
            name: "const",
            kind: SymbolKind::Keyword,
            signature: "const NAME = value;",
            docs: "Immutable binding.",
            insert: "const ",
        },
        ScriptSymbol {
            name: "if",
            kind: SymbolKind::Keyword,
            signature: "if cond { … }",
            docs: "Conditional branch.",
            insert: "if ",
        },
        ScriptSymbol {
            name: "else",
            kind: SymbolKind::Keyword,
            signature: "else { … }",
            docs: "Else branch.",
            insert: "else ",
        },
        ScriptSymbol {
            name: "while",
            kind: SymbolKind::Keyword,
            signature: "while cond { … }",
            docs: "Loop while condition is true.",
            insert: "while ",
        },
        ScriptSymbol {
            name: "for",
            kind: SymbolKind::Keyword,
            signature: "for x in range { … }",
            docs: "Iterate a range or collection.",
            insert: "for ",
        },
        ScriptSymbol {
            name: "return",
            kind: SymbolKind::Keyword,
            signature: "return value;",
            docs: "Return from the current function.",
            insert: "return ",
        },
        ScriptSymbol {
            name: "true",
            kind: SymbolKind::Keyword,
            signature: "true",
            docs: "Boolean true.",
            insert: "true",
        },
        ScriptSymbol {
            name: "false",
            kind: SymbolKind::Keyword,
            signature: "false",
            docs: "Boolean false.",
            insert: "false",
        },
        ScriptSymbol {
            name: "on_ready",
            kind: SymbolKind::Lifecycle,
            signature: "fn on_ready() { … }",
            docs: "Godot-like: called once when Play starts (after load).",
            insert: "fn on_ready() {\n    \n}\n",
        },
        ScriptSymbol {
            name: "on_update",
            kind: SymbolKind::Lifecycle,
            signature: "fn on_update(dt) { … }",
            docs: "Godot-like: called every frame; `dt` is seconds since last frame.",
            insert: "fn on_update(dt) {\n    \n}\n",
        },
        ScriptSymbol {
            name: "log",
            kind: SymbolKind::Api,
            signature: "log(message)",
            docs: "Print to the Studio Console (designer-safe; no file I/O).",
            insert: "log(\"\")",
        },
        ScriptSymbol {
            name: "say",
            kind: SymbolKind::Api,
            signature: "say(message)",
            docs: "Alias of log — useful when teaching non-coders.",
            insert: "say(\"\")",
        },
        ScriptSymbol {
            name: "set_translation",
            kind: SymbolKind::Api,
            signature: "set_translation(entity_index, x, y, z)",
            docs: "Move an entity by index (from Scene tree order).",
            insert: "set_translation(0, 0.0, 0.0, 0.0)",
        },
        ScriptSymbol {
            name: "spawn_named",
            kind: SymbolKind::Api,
            signature: "spawn_named(name, x, y, z)",
            docs: "Spawn a named world item / prop at a position.",
            insert: "spawn_named(\"Pine Tall\", 0.0, 0.0, 0.0)",
        },
        ScriptSymbol {
            name: "emit_signal",
            kind: SymbolKind::Api,
            signature: "emit_signal(name)",
            docs: "Fire a named signal for quests / UI / other scripts.",
            insert: "emit_signal(\"quest_started\")",
        },
        ScriptSymbol {
            name: "play_audio",
            kind: SymbolKind::Api,
            signature: "play_audio(name)",
            docs: "Play a one-shot audio cue by asset name.",
            insert: "play_audio(\"ui_click\")",
        },
        ScriptSymbol {
            name: "demo_spin",
            kind: SymbolKind::Snippet,
            signature: "snippet: demo_spin",
            docs: "Starter script: on_ready + on_update that logs each tick.",
            insert: "// Shiloh designer script — safe sandbox API\nfn on_ready() {\n    log(\"ready\");\n}\nfn on_update(dt) {\n    log(\"tick\");\n}\n",
        },
    ]
}

/// Shiloh sandbox API and the Rhai keywords designers actually type.
pub fn shiloh_script_catalog() -> (r: &'static [ScriptSymbol])
    ensures
        r@ == catalog(),
{
    let r: &'static [ScriptSymbol] = &[
        ScriptSymbol {
            name: "fn",
            kind: SymbolKind::Keyword,
            signature: "fn name(args) { … }",
            docs: "Declare a function.",
            insert: "fn ",
        },
        ScriptSymbol {
            name: "let",
            kind: SymbolKind::Keyword,
            signature: "let name = value;",
            docs: "Mutable local binding.",
            insert: "let ",
        },
        ScriptSymbol {
            name: "const",
            kind: SymbolKind::Keyword,
            signature: "const NAME = value;",
            docs: "Immutable binding.",
            insert: "const ",
        },
        ScriptSymbol {
            name: "if",
            kind: SymbolKind::Keyword,
            signature: "if cond { … }",
            docs: "Conditional branch.",
            insert: "if ",
        },
        ScriptSymbol {
            name: "else",
            kind: SymbolKind::Keyword,
            signature: "else { … }",
            docs: "Else branch.",
            insert: "else ",
        },
        ScriptSymbol {
            name: "while",
            kind: SymbolKind::Keyword,
            signature: "while cond { … }",
            docs: "Loop while condition is true.",
            insert: "while ",
        },
        ScriptSymbol {
            name: "for",
            kind: SymbolKind::Keyword,
            signature: "for x in range { … }",
            docs: "Iterate a range or collection.",
            insert: "for ",
        },
        ScriptSymbol {
            name: "return",
            kind: SymbolKind::Keyword,
            signature: "return value;",
            docs: "Return from the current function.",
            insert: "return ",
        },
        ScriptSymbol {
            name: "true",
            kind: SymbolKind::Keyword,
            signature: "true",
            docs: "Boolean true.",
            insert: "true",
        },
        ScriptSymbol {
            name: "false",
            kind: SymbolKind::Keyword,
            signature: "false",
            docs: "Boolean false.",
            insert: "false",
        },
        ScriptSymbol {
            name: "on_ready",
            kind: SymbolKind::Lifecycle,
            signature: "fn on_ready() { … }",
            docs: "Godot-like: called once when Play starts (after load).",
            insert: "fn on_ready() {\n    \n}\n",
        },
        ScriptSymbol {
            name: "on_update",
            kind: SymbolKind::Lifecycle,
            signature: "fn on_update(dt) { … }",
            docs: "Godot-like: called every frame; `dt` is seconds since last frame.",
            insert: "fn on_update(dt) {\n    \n}\n",
        },
        ScriptSymbol {
            name: "log",
            kind: SymbolKind::Api,
            signature: "log(message)",
            docs: "Print to the Studio Console (designer-safe; no file I/O).",
            insert: "log(\"\")",
        },
        ScriptSymbol {
            name: "say",
            kind: SymbolKind::Api,
            signature: "say(message)",
            docs: "Alias of log — useful when teaching non-coders.",
            insert: "say(\"\")",
        },
        ScriptSymbol {
            name: "set_translation",
            kind: SymbolKind::Api,
            signature: "set_translation(entity_index, x, y, z)",
            docs: "Move an entity by index (from Scene tree order).",
            insert: "set_translation(0, 0.0, 0.0, 0.0)",
        },
        ScriptSymbol {
            name: "spawn_named",
            kind: SymbolKind::Api,
            signature: "spawn_named(name, x, y, z)",
            docs: "Spawn a named world item / prop at a position.",
            insert: "spawn_named(\"Pine Tall\", 0.0, 0.0, 0.0)",
        },
        ScriptSymbol {
            name: "emit_signal",
            kind: SymbolKind::Api,
            signature: "emit_signal(name)",
            docs: "Fire a named signal for quests / UI / other scripts.",
            insert: "emit_signal(\"quest_started\")",
        },
        ScriptSymbol {
            name: "play_audio",
            kind: SymbolKind::Api,
            signature: "play_audio(name)",
            docs: "Play a one-shot audio cue by asset name.",
            insert: "play_audio(\"ui_click\")",
        },
        ScriptSymbol {
            name: "demo_spin",
            kind: SymbolKind::Snippet,
            signature: "snippet: demo_spin",
            docs: "Starter script: on_ready + on_update that logs each tick.",
            insert: "// Shiloh designer script — safe sandbox API\nfn on_ready() {\n    log(\"ready\");\n}\nfn on_update(dt) {\n    log(\"tick\");\n}\n",
        },
    ];
    assert(r@ =~= catalog());
    r
}

/// The starter text of a new script.
pub open spec fn default_script_text() -> Seq<char> {
    "// New Shiloh script — autocomplete: type a name, Tab to accept\n// Lifecycle: on_ready / on_update · API: log, spawn_named, …\n\nfn on_ready() {\n    log(\"hello designer\");\n}\n\nfn on_update(dt) {\n    // dt = seconds since last frame\n}\n"@
}

/// A new script's starter text.
pub fn default_new_script() -> (r: String)
    ensures
        r@ == default_script_text(),
{
    String::from_str(
        "// New Shiloh script — autocomplete: type a name, Tab to accept\n// Lifecycle: on_ready / on_update · API: log, spawn_named, …\n\nfn on_ready() {\n    log(\"hello designer\");\n}\n\nfn on_update(dt) {\n    // dt = seconds since last frame\n}\n",
    )
}

/// Start of the identifier that ends at position `i` of `s`: the smallest
/// `start <= i` such that every character in `start..i` is an identifier character.
pub open spec fn word_start(s: Seq<char>, i: int) -> int
    decreases i,
{
    if i > 0 && i <= s.len() && is_ident_char(s[i - 1]) {
        word_start(s, i - 1)
    } else {
        i
    }
}

/// The cursor, clamped to the text.
pub open spec fn clamped_cursor(s: Seq<char>, cursor: int) -> int {
    if cursor < s.len() { cursor } else { s.len() as int }
}

/// Whether `sym` is offered for the lower-cased query `q`: with no query, the
/// lifecycle hooks, API calls and snippets; otherwise every entry whose
/// lower-cased name contains `q`.
pub open spec fn offered(sym: ScriptSymbol, q: Seq<char>) -> bool {
    if q.len() == 0 {
        sym.kind != SymbolKind::Keyword
    } else {
        contains_seq(lower(sym.name@), q)
    }
}

/// Catalog indices below `n` offered for `q`, ascending.
pub open spec fn offered_indices(q: Seq<char>, n: int) -> Seq<usize>
    decreases n,
{
    if n <= 0 {
        Seq::empty()
    } else if offered(catalog()[n - 1], q) {
        offered_indices(q, n - 1).push((n - 1) as usize)
    } else {
        offered_indices(q, n - 1)
    }
}

proof fn lemma_offered_indices(q: Seq<char>, n: int)
    requires
        0 <= n <= catalog().len(),
    ensures
        forall|k: int|
            0 <= k < n ==> (offered_indices(q, n).contains(k as usize) <==> offered(catalog()[k], q)),
        forall|m: int| 0 <= m < offered_indices(q, n).len() ==> (offered_indices(q, n)[m] as int) < n,
    decreases n,
{
    broadcast use vstd::seq_lib::lemma_seq_contains_after_push;

    if n > 0 {
        lemma_offered_indices(q, n - 1);
        let prev = offered_indices(q, n - 1);
        assert forall|k: int| 0 <= k < n implies (offered_indices(q, n).contains(k as usize) <==> offered(
            catalog()[k],
            q,
        )) by {
            if k < n - 1 {
                if prev.contains((n - 1) as usize) {
                    let m = choose|m: int| 0 <= m < prev.len() && prev[m] == (n - 1) as usize;
                    assert(prev[m] < n - 1);
                }
            } else {
                if prev.contains(k as usize) {
                    let m = choose|m: int| 0 <= m < prev.len() && prev[m] == k as usize;
                    assert(prev[m] < n - 1);
                }
            }
        }
    }
}

/// Which catalog entries are offered for a lower-cased query `q`: for a
/// non-empty query, exactly those whose lower-cased name contains `q` at any
/// position (not only as a prefix); for an empty query, exactly those that
/// are not keywords. Offered indices are catalog indices.
pub proof fn law_offers_names_containing_query(q: Seq<char>)
    ensures
        forall|k: int|
            0 <= k < catalog().len() && q.len() > 0 ==> (offered_indices(q, catalog().len() as int).contains(
                k as usize,
            ) <==> contains_seq(lower(catalog()[k].name@), q)),
        forall|k: int|
            0 <= k < catalog().len() && q.len() == 0 ==> (offered_indices(q, catalog().len() as int).contains(
                k as usize,
            ) <==> catalog()[k].kind != SymbolKind::Keyword),
        forall|m: int|
            0 <= m < offered_indices(q, catalog().len() as int).len() ==> (offered_indices(
                q,
                catalog().len() as int,
            )[m] as int) < catalog().len(),
{
    lemma_offered_indices(q, catalog().len() as int);
}

/// The docs line shown for a symbol: its signature, a dash, its description.
pub open spec fn docs_line(sym: ScriptSymbol) -> Seq<char> {
    sym.signature@ + " — "@ + sym.docs@
}

/// `after` is `before` with the selected completion applied (see
/// [`ScriptEditorState::apply_completion`]): nothing changes when no entry
/// is selected; else the word before the cursor is replaced by the entry's
/// insert text, the cursor moves after it, the buffer is dirty, the
/// completer closes and the status names the entry.
pub open spec fn completion_applied(before: ScriptEditorState, after: ScriptEditorState) -> bool {
    if before.completer_index >= before.completer_filtered@.len() {
        after == before
    } else {
        let buf = before.buffer@;
        let i = clamped_cursor(buf, before.cursor_ccursor as int);
        let start = word_start(buf, i);
        let sym = catalog()[before.completer_filtered@[before.completer_index as int] as int];
        &&& after.buffer@ == buf.subrange(0, start) + sym.insert@ + buf.subrange(i, buf.len() as int)
        &&& after.cursor_ccursor == start + sym.insert@.len()
        &&& after.dirty
        &&& !after.completer_open
        &&& after.status@ == "Inserted `"@ + sym.name@ + "`"@
        &&& after.completer_filtered == before.completer_filtered
        &&& after.completer_index == before.completer_index
        &&& after.completer_query == before.completer_query
        &&& after.cursor_docs == before.cursor_docs
        &&& after.open_path == before.open_path
        &&& after.open_rel == before.open_rel
        &&& after.file_list == before.file_list
        &&& after.selected_file == before.selected_file
    }
}

/// Keys pressed in one frame while the completer popup shows.
#[derive(Debug, Clone, Copy, PartialEq, Eq, Structural)]
pub struct CompleterKeys {
    /// Escape: close the popup.
    pub escape: bool,
    /// Arrow down: select the next entry.
    pub down: bool,
    /// Arrow up: select the previous entry.
    pub up: bool,
    /// Tab or Enter: apply the selected entry.
    pub accept: bool,
}

/// Selected row after the arrow keys of a frame, among `n` entries: down
/// moves to the next row, then up to the previous one, each wrapping around.
pub open spec fn stepped_index(i: int, n: int, down: bool, up: bool) -> int {
    let j = if down { (i + 1) % n } else { i };
    if up {
        if j == 0 { n - 1 } else { j - 1 }
    } else {
        j
    }
}

/// `s` after a frame's Escape and arrow keys, before a completion is applied.
pub open spec fn navigated(s: ScriptEditorState, k: CompleterKeys) -> ScriptEditorState {
    ScriptEditorState {
        completer_open: if k.escape { false } else { s.completer_open },
        completer_index: stepped_index(
            s.completer_index as int,
            s.completer_filtered@.len() as int,
            k.down,
            k.up,
        ) as usize,
        ..s
    }
}


/// Bottom-dock script IDE state.
pub struct ScriptEditorState {
    pub buffer: String,
    pub open_path: Option<std::path::PathBuf>,
    pub open_rel: String,
    pub dirty: bool,
    pub file_list: Vec<String>,
    pub selected_file: Option<String>,
    pub completer_open: bool,
    pub completer_query: String,
    pub completer_index: usize,
    pub completer_filtered: Vec<usize>,
    pub status: String,
    pub cursor_docs: String,
    /// Last known cursor position, as a character index into `buffer`.
    pub cursor_ccursor: usize,
}

impl Default for ScriptEditorState {
    fn default() -> (r: Self)
        ensures
            r.buffer@ == default_script_text(),
            r.open_path is None,
            r.open_rel@ == Seq::<char>::empty(),
            !r.dirty,
            r.file_list@ == Seq::<String>::empty(),
            r.selected_file is None,
            !r.completer_open,
            r.completer_query@ == Seq::<char>::empty(),
            r.completer_index == 0,
            r.completer_filtered@ == Seq::<usize>::empty(),
            r.status@ == "New untitled script — Save to Scripts/"@,
            r.cursor_docs@ == "Type to open IntelliSense · Tab accepts · Esc hides"@,
            r.cursor_ccursor == 0,
    {
        ScriptEditorState {
            buffer: default_new_script(),
            open_path: None,
            open_rel: String::new(),
            dirty: false,
            file_list: Vec::new(),
            selected_file: None,
            completer_open: false,
            completer_query: String::new(),
            completer_index: 0,
            completer_filtered: Vec::new(),
            status: String::from_str("New untitled script — Save to Scripts/"),
            cursor_docs: String::from_str("Type to open IntelliSense · Tab accepts · Esc hides"),
            cursor_ccursor: 0,
        }
    }
}

proof fn lemma_word_start_bounds(s: Seq<char>, i: int)
    requires
        0 <= i <= s.len(),
    ensures
        0 <= word_start(s, i) <= i,
        forall|k: int| word_start(s, i) <= k < i ==> is_ident_char(#[trigger] s[k]),
        word_start(s, i) > 0 ==> !is_ident_char(s[word_start(s, i) - 1]),
    decreases i,
{
    if i > 0 && is_ident_char(s[i - 1]) {
        lemma_word_start_bounds(s, i - 1);
    }
}

impl ScriptEditorState {
    /// Start and text of the identifier that ends at the cursor.
    pub fn word_before_cursor(&self) -> (r: (usize, String))
        ensures
            r.0 == word_start(self.buffer@, clamped_cursor(self.buffer@, self.cursor_ccursor as int)),
            r.1@ == self.buffer@.subrange(
                r.0 as int,
                clamped_cursor(self.buffer@, self.cursor_ccursor as int),
            ),
    {
        let text = self.buffer.as_str();
        let n = text.unicode_len();
        let i = if self.cursor_ccursor < n { self.cursor_ccursor } else { n };
        let cs = chars_of(text);
        let mut start = i;
        while start > 0 && is_ident_char_exec(cs[start - 1])
            invariant
                cs@ == self.buffer@,
                n == cs@.len(),
                i <= n,
                start <= i,
                word_start(cs@, start as int) == word_start(cs@, i as int),
            decreases start,
        {
            start = start - 1;
        }
        let word = String::from_str(text.substring_char(start, i));
        (start, word)
    }

    /// Recompute the completion list for the word before the cursor.
    ///
    /// The query is that word; the offered entries are those whose name
    /// contains it (ASCII case-insensitively), or the hooks, API calls and
    /// snippets when it is empty. With entries on offer the completer opens,
    /// the selected row is clamped to the list and the docs line shows the
    /// selected entry; with none it closes.
    pub fn recompute_completions(&mut self)
        ensures
            ({
                let buf = old(self).buffer@;
                let i = clamped_cursor(buf, old(self).cursor_ccursor as int);
                let word = buf.subrange(word_start(buf, i), i);
                let filtered = offered_indices(lower(word), catalog().len() as int);
                &&& final(self).completer_query@ == word
                &&& final(self).completer_filtered@ == filtered
                &&& if filtered.len() == 0 {
                    &&& !final(self).completer_open
                    &&& final(self).completer_index == old(self).completer_index
                    &&& final(self).cursor_docs == old(self).cursor_docs
                } else {
                    &&& final(self).completer_open
                    &&& final(self).completer_index == (if old(self).completer_index < filtered.len() {
                        old(self).completer_index as int
                    } else {
                        filtered.len() - 1
                    })
                    &&& final(self).cursor_docs@ == docs_line(
                        catalog()[filtered[final(self).completer_index as int] as int],
                    )
                }
            }),
            final(self).buffer == old(self).buffer,
            final(self).cursor_ccursor == old(self).cursor_ccursor,
            final(self).dirty == old(self).dirty,
            final(self).status == old(self).status,
            final(self).open_path == old(self).open_path,
            final(self).open_rel == old(self).open_rel,
            final(self).file_list == old(self).file_list,
            final(self).selected_file == old(self).selected_file,
    {
        let (_, word) = self.word_before_cursor();
        let q = lower_chars_of(word.as_str());
        let ghost word_v = word@;
        self.completer_query = word;
        let cat = shiloh_script_catalog();
        let mut filtered: Vec<usize> = Vec::new();
        let mut k: usize = 0;
        while k < cat.len()
            invariant
                cat@ == catalog(),
                q@ == lower(word_v),
                k <= cat@.len(),
                filtered@ == offered_indices(q@, k as int),
                forall|m: int| 0 <= m < filtered@.len() ==> (#[trigger] filtered@[m] as int) < k,
            decreases cat.len() - k,
        {
            let sym = cat[k];
            let hit = if q.len() == 0 {
                match sym.kind {
                    SymbolKind::Keyword => false,
                    _ => true,
                }
            } else {
                let name = lower_chars_of(sym.name);
                contains_chars(&name, &q)
            };
            if hit {
                filtered.push(k);
            }
            k += 1;
        }
        self.completer_filtered = filtered;
        if self.completer_filtered.len() == 0 {
            self.completer_open = false;
        } else {
            self.completer_open = true;
            let last = self.completer_filtered.len() - 1;
            if self.completer_index > last {
                self.completer_index = last;
            }
            let idx = self.completer_filtered[self.completer_index];
            let s = cat[idx];
            let mut docs = String::from_str(s.signature);
            docs.append(" — ");
            docs.append(s.docs);
            self.cursor_docs = docs;
        }
    }

    /// Replace the word before the cursor with the selected completion's insert
    /// text, move the cursor after it, mark the buffer dirty and close the
    /// completer. Does nothing when no completion is selected.
    pub fn apply_completion(&mut self)
        requires
            old(self).completer_index < old(self).completer_filtered@.len() ==> (old(
                self,
            ).completer_filtered@[old(self).completer_index as int] as int) < catalog().len(),
        ensures
            completion_applied(*old(self), *final(self)),
            old(self).completer_index >= old(self).completer_filtered@.len() ==> *final(self) == *old(
                self,
            ),
            old(self).completer_index < old(self).completer_filtered@.len() ==> ({
                let buf = old(self).buffer@;
                let i = clamped_cursor(buf, old(self).cursor_ccursor as int);
                let start = word_start(buf, i);
                let sym = catalog()[old(self).completer_filtered@[old(self).completer_index as int] as int];
                &&& final(self).buffer@ == buf.subrange(0, start) + sym.insert@ + buf.subrange(
                    i,
                    buf.len() as int,
                )
                &&& final(self).cursor_ccursor == start + sym.insert@.len()
                &&& final(self).dirty
                &&& !final(self).completer_open
                &&& final(self).status@ == "Inserted `"@ + sym.name@ + "`"@
                &&& final(self).completer_filtered == old(self).completer_filtered
                &&& final(self).completer_index == old(self).completer_index
                &&& final(self).completer_query == old(self).completer_query
                &&& final(self).cursor_docs == old(self).cursor_docs
                &&& final(self).open_path == old(self).open_path
                &&& final(self).open_rel == old(self).open_rel
                &&& final(self).file_list == old(self).file_list
                &&& final(self).selected_file == old(self).selected_file
            }),
    {
        if self.completer_index >= self.completer_filtered.len() {
            return;
        }
        let cat_i = self.completer_filtered[self.completer_index];
        let cat = shiloh_script_catalog();
        let sym = cat[cat_i];
        let (start, _word) = self.word_before_cursor();
        let text = self.buffer.as_str();
        let n = text.unicode_len();
        let end = if self.cursor_ccursor < n { self.cursor_ccursor } else { n };
        proof {
            lemma_word_start_bounds(self.buffer@, end as int);
        }
        let mut next = String::from_str(text.substring_char(0, start));
        next.append(sym.insert);
        let ghost mid = next@;
        next.append(text.substring_char(end, n));
        let ins_len = sym.insert.unicode_len();
        assert(mid.len() == start + ins_len);
        let next_len = next.as_str().unicode_len();
        assert(start + ins_len <= next_len);
        self.buffer = next;
        self.cursor_ccursor = start + ins_len;
        self.dirty = true;
        self.completer_open = false;
        let mut status = String::from_str("Inserted `");
        status.append(sym.name);
        status.append("`");
        self.status = status;
    }

    /// Handle a frame's keys while the completer popup shows (it is open
    /// with entries on offer; otherwise nothing happens): Escape closes it,
    /// the arrows move the selection with wrap-around (see [`navigated`]),
    /// and Tab or Enter then applies the selected entry.
    pub fn completer_keys(&mut self, keys: CompleterKeys)
        requires
            keys.down ==> old(self).completer_index < usize::MAX,
            keys.accept ==> forall|j: int|
                0 <= j < old(self).completer_filtered@.len() ==> (#[trigger] old(self).completer_filtered@[j]
                    as int) < catalog().len(),
        ensures
            !(old(self).completer_open && old(self).completer_filtered@.len() > 0) ==> *final(self)
                == *old(self),
            old(self).completer_open && old(self).completer_filtered@.len() > 0 ==> if keys.accept {
                completion_applied(navigated(*old(self), keys), *final(self))
            } else {
                *final(self) == navigated(*old(self), keys)
            },
    {
        let n = self.completer_filtered.len();
        if !(self.completer_open && n > 0) {
            return;
        }
        if keys.escape {
            self.completer_open = false;
        }
        if keys.down {
            self.completer_index = (self.completer_index + 1) % n;
        }
        if keys.up {
            self.completer_index = if self.completer_index == 0 {
                n - 1
            } else {
                self.completer_index - 1
            };
        }
        assert(*self == navigated(*old(self), keys));
        if keys.accept {
            self.apply_completion();
        }
    }

    /// Start a fresh untitled script with the starter text.
    pub fn new_script(&mut self)
        ensures
            final(self).buffer@ == default_script_text(),
            final(self).open_path is None,
            final(self).open_rel@ == Seq::<char>::empty(),
            final(self).selected_file is None,
            final(self).dirty,
            final(self).status@ == "New untitled script"@,
            !final(self).completer_open,
            final(self).cursor_ccursor == old(self).cursor_ccursor,
            final(self).completer_filtered == old(self).completer_filtered,
            final(self).completer_index == old(self).completer_index,
            final(self).completer_query == old(self).completer_query,
            final(self).cursor_docs == old(self).cursor_docs,
            final(self).file_list == old(self).file_list,
    {
        self.buffer = default_new_script();
        self.open_path = None;
        self.open_rel = String::new();
        self.selected_file = None;
        self.dirty = true;
        self.status = String::from_str("New untitled script");
        self.completer_open = false;
    }
}

impl ScriptEditorState {
    /// Show `names` (the script files found) in the file list, in name
    /// order.
    pub fn set_file_list(&mut self, names: Vec<String>)
        ensures
            names_sorted(string_views(final(self).file_list@)),
            string_views(final(self).file_list@).to_multiset() == string_views(names@).to_multiset(),
            final(self).buffer == old(self).buffer,
            final(self).open_path == old(self).open_path,
            final(self).open_rel == old(self).open_rel,
            final(self).selected_file == old(self).selected_file,
            final(self).status == old(self).status,
            final(self).dirty == old(self).dirty,
            final(self).completer_open == old(self).completer_open,
            final(self).completer_query == old(self).completer_query,
            final(self).completer_index == old(self).completer_index,
            final(self).completer_filtered == old(self).completer_filtered,
            final(self).cursor_docs == old(self).cursor_docs,
            final(self).cursor_ccursor == old(self).cursor_ccursor,
    {
        self.file_list = sort_names(names);
    }

    /// The script `name` (at `path`) was read and holds `text`: it becomes
    /// the open, unmodified buffer.
    pub fn file_opened(&mut self, path: std::path::PathBuf, name: &str, text: String)
        ensures
            final(self).buffer == text,
            final(self).open_path == Some(path),
            final(self).open_rel@ == "Scripts/"@ + name@,
            (final(self).selected_file matches Some(f) && f@ == name@),
            !final(self).dirty,
            final(self).status@ == "Opened "@ + name@,
            !final(self).completer_open,
            final(self).file_list == old(self).file_list,
            final(self).completer_query == old(self).completer_query,
            final(self).completer_index == old(self).completer_index,
            final(self).completer_filtered == old(self).completer_filtered,
            final(self).cursor_docs == old(self).cursor_docs,
            final(self).cursor_ccursor == old(self).cursor_ccursor,
    {
        self.buffer = text;
        self.open_path = Some(path);
        let mut rel = String::from_str("Scripts/");
        rel.append(name);
        self.open_rel = rel;
        self.selected_file = Some(String::from_str(name));
        self.dirty = false;
        let mut status = String::from_str("Opened ");
        status.append(name);
        self.status = status;
        self.completer_open = false;
    }

    /// The file name a save writes to in the scripts folder when no file is
    /// open yet: the selected file, else `untitled.rhai`. `None` when a file
    /// is open (it is saved in place).
    pub fn save_file_name(&self) -> (r: Option<String>)
        ensures
            self.open_path is Some ==> r is None,
            self.open_path is None ==> (r matches Some(n) && n@ == match self.selected_file {
                Some(f) => f@,
                None => "untitled.rhai"@,
            }),
    {
        if self.open_path.is_some() {
            return None;
        }
        match &self.selected_file {
            Some(f) => Some(f.clone()),
            None => Some(String::from_str("untitled.rhai")),
        }
    }

    /// The buffer was written to `path` (shown as `shown`); when that path
    /// was newly chosen, it becomes the open file, named `file_name` in the
    /// scripts folder.
    pub fn file_saved(&mut self, path: std::path::PathBuf, file_name: Option<&str>, shown: &str)
        ensures
            file_name is Some ==> final(self).open_path == Some(path),
            file_name matches Some(n) ==> final(self).open_rel@ == "Scripts/"@ + n@,
            file_name is None ==> final(self).open_path == old(self).open_path,
            file_name is None ==> final(self).open_rel == old(self).open_rel,
            !final(self).dirty,
            final(self).status@ == "Saved "@ + shown@,
            final(self).buffer == old(self).buffer,
            final(self).selected_file == old(self).selected_file,
            final(self).file_list == old(self).file_list,
            final(self).completer_open == old(self).completer_open,
            final(self).completer_query == old(self).completer_query,
            final(self).completer_index == old(self).completer_index,
            final(self).completer_filtered == old(self).completer_filtered,
            final(self).cursor_docs == old(self).cursor_docs,
            final(self).cursor_ccursor == old(self).cursor_ccursor,
    {
        match file_name {
            Some(n) => {
                self.open_path = Some(path);
                let mut rel = String::from_str("Scripts/");
                rel.append(n);
                self.open_rel = rel;
            },
            None => {},
        }
        self.dirty = false;
        let mut status = String::from_str("Saved ");
        status.append(shown);
        self.status = status;
    }
}

} // verus!
