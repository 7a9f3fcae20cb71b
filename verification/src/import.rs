//! Importing an asset from a URL into the project's `assets/Imported` folder:
//! which URLs are accepted, the file name a download is stored under, the
//! numbered names tried when that file exists, and the checks on the reply.

use vstd::prelude::*;

use crate::text::{
    decimal, decimal_string, is_ascii_alnum, is_ascii_alnum_exec, push_str, starts_with, str_eq,
    str_starts_with, string_push,
};

verus! {

/// Why an import failed.
#[derive(Debug)]
pub enum ImportError {
    InvalidUrl,
    /// The transfer failed; the message says how.
    Http(String),
    Io(std::io::Error),
}

// ---------------------------------------------------------------------------
// Accepted URLs.

/// What `str::trim` gives for `s`: `s` without its leading and trailing
/// Unicode white space.
pub uninterp spec fn trimmed(s: Seq<char>) -> Seq<char>;

/// `str::trim`: `s` with its leading and trailing white space removed, so a
/// contiguous piece of `s`. Which characters count as white space (Unicode's
/// `White_Space` property) is left to the name [`trimmed`].
#[verifier::external_body]
fn str_trim(s: &str) -> (r: &str)
    ensures
        r@ == trimmed(s@),
        r@.len() <= s@.len() && exists|i: int|
            0 <= i <= s@.len() - r@.len() && r@ == #[trigger] s@.subrange(i, i + r@.len()),
{
    s.trim()
}

/// `url` names an `https://` or `http://` resource.
pub open spec fn is_http_url(url: Seq<char>) -> bool {
    starts_with(url, "https://"@) || starts_with(url, "http://"@)
}

/// Whether `url` (already trimmed) is one an import accepts.
pub fn accepts_url(url: &str) -> (b: bool)
    ensures
        b == is_http_url(url@),
{
    str_starts_with(url, "https://") || str_starts_with(url, "http://")
}

/// The trimmed URL when it is `https://` or `http://`, else `InvalidUrl`.
pub fn check_import_url(url: &str) -> (r: Result<String, ImportError>)
    ensures
        is_http_url(trimmed(url@)) <==> r is Ok,
        r matches Ok(t) ==> t@ == trimmed(url@),
        r matches Err(e) ==> e is InvalidUrl,
{
    let t = str_trim(url);
    if accepts_url(t) {
        Ok(String::from_str(t))
    } else {
        Err(ImportError::InvalidUrl)
    }
}

/// A downloaded body is stored only when it is not empty.
pub fn check_response_body(bytes: &Vec<u8>) -> (r: Result<(), ImportError>)
    ensures
        r is Ok <==> bytes@.len() > 0,
        r matches Err(e) ==> e matches ImportError::Http(m) && m@ == "empty response body"@,
{
    if bytes.len() == 0 {
        Err(ImportError::Http(String::from_str("empty response body")))
    } else {
        Ok(())
    }
}

// ---------------------------------------------------------------------------
// File names.

/// Index of the first `'?'` in `s` at or after `k`, or the length.
pub open spec fn query_start(s: Seq<char>, k: int) -> int
    decreases s.len() - k,
{
    if k >= s.len() {
        s.len() as int
    } else if s[k] == '?' {
        k
    } else {
        query_start(s, k + 1)
    }
}

/// Index just after the last `'/'` in `s[..k]`, or 0.
pub open spec fn segment_start(s: Seq<char>, k: int) -> int
    decreases k,
{
    if k <= 0 {
        0
    } else if s[k - 1] == '/' {
        k
    } else {
        segment_start(s, k - 1)
    }
}

/// Characters kept in a stored file name; any other becomes `_`.
pub open spec fn safe_name_char(c: char) -> char {
    if is_ascii_alnum(c) || c == '.' || c == '-' || c == '_' {
        c
    } else {
        '_'
    }
}

/// The file name a download of `url` is stored under: the last path segment
/// of the URL (query dropped) with unsafe characters replaced, or
/// `import.bin` when that leaves nothing, `.` or `..`.
pub open spec fn url_file_name(url: Seq<char>) -> Seq<char> {
    let path = url.take(query_start(url, 0));
    let seg = path.subrange(segment_start(path, path.len() as int), path.len() as int);
    let name = if seg.len() == 0 { "import.bin"@ } else { seg };
    let safe = name.map_values(|c: char| safe_name_char(c));
    if safe.len() == 0 || safe == "."@ || safe == ".."@ { "import.bin"@ } else { safe }
}

proof fn lemma_query_start(s: Seq<char>, k: int)
    requires
        0 <= k <= s.len(),
    ensures
        k <= query_start(s, k) <= s.len(),
    decreases s.len() - k,
{
    if k < s.len() && s[k] != '?' {
        lemma_query_start(s, k + 1);
    }
}

proof fn lemma_segment_start(s: Seq<char>, k: int)
    requires
        0 <= k <= s.len(),
    ensures
        0 <= segment_start(s, k) <= k,
    decreases k,
{
    if k > 0 && s[k - 1] != '/' {
        lemma_segment_start(s, k - 1);
    }
}

/// `name` with unsafe characters replaced by `_`.
fn sanitized(name: &Vec<char>, from: usize, to: usize) -> (r: String)
    requires
        from <= to <= name@.len(),
    ensures
        r@ == name@.subrange(from as int, to as int).map_values(|c: char| safe_name_char(c)),
{
    let mut out = String::new();
    let mut i = from;
    while i < to
        invariant
            from <= i <= to,
            to <= name@.len(),
            out@ == name@.subrange(from as int, i as int).map_values(|c: char| safe_name_char(c)),
        decreases to - i,
    {
        let c = name[i];
        let keep = is_ascii_alnum_exec(c) || c == '.' || c == '-' || c == '_';
        string_push(&mut out, if keep { c } else { '_' });
        assert(name@.subrange(from as int, i + 1).map_values(|c: char| safe_name_char(c))
            =~= name@.subrange(from as int, i as int).map_values(|c: char| safe_name_char(c)).push(
            safe_name_char(c),
        ));
        i += 1;
    }
    out
}

/// The file name a download of `url` is stored under (see [`url_file_name`]).
pub fn filename_from_url(url: &str) -> (r: String)
    ensures
        r@ == url_file_name(url@),
{
    let cs = crate::text::chars_of(url);
    let n = cs.len();
    let mut q: usize = 0;
    while q < n && cs[q] != '?'
        invariant
            n == cs@.len(),
            q <= n,
            query_start(cs@, q as int) == query_start(cs@, 0),
        decreases n - q,
    {
        q += 1;
    }
    let ghost path = cs@.take(q as int);
    let mut s = q;
    while s > 0 && cs[s - 1] != '/'
        invariant
            q <= n,
            n == cs@.len(),
            s <= q,
            path == cs@.take(q as int),
            segment_start(path, s as int) == segment_start(path, q as int),
        decreases s,
    {
        s -= 1;
    }
    proof {
        assert(query_start(cs@, q as int) == q);
        assert(path.len() == q);
        assert(segment_start(path, s as int) == s);
        lemma_segment_start(path, q as int);
        assert(path.subrange(s as int, q as int) =~= cs@.subrange(s as int, q as int));
    }
    let ghost seg = path.subrange(s as int, q as int);
    assert(seg == path.subrange(segment_start(path, path.len() as int), path.len() as int));
    if s == q {
        assert(seg.len() == 0);
        let r = String::from_str("import.bin");
        proof {
            reveal_strlit("import.bin");
            assert("import.bin"@.map_values(|c: char| safe_name_char(c)) =~= "import.bin"@);
        }
        r
    } else {
        let safe = sanitized(&cs, s, q);
        if safe.unicode_len() == 0 || str_eq(safe.as_str(), ".") || str_eq(safe.as_str(), "..") {
            String::from_str("import.bin")
        } else {
            safe
        }
    }
}

/// A download is stored directly in the import folder: its file name is
/// never empty, `.` or `..`, and holds no `/`.
pub proof fn law_file_name_stays_in_folder(url: Seq<char>)
    ensures
        url_file_name(url).len() > 0,
        url_file_name(url) != "."@,
        url_file_name(url) != ".."@,
        !url_file_name(url).contains('/'),
{
    reveal_strlit("import.bin");
    reveal_strlit(".");
    reveal_strlit("..");
    assert("."@.len() == 1 && ".."@.len() == 2);
    let path = url.take(query_start(url, 0));
    let seg = path.subrange(segment_start(path, path.len() as int), path.len() as int);
    let name = if seg.len() == 0 { "import.bin"@ } else { seg };
    let safe = name.map_values(|c: char| safe_name_char(c));
    if url_file_name(url).contains('/') {
        let k = choose|k: int| 0 <= k < url_file_name(url).len() && url_file_name(url)[k] == '/';
        if url_file_name(url) == safe {
            assert(safe[k] == safe_name_char(name[k]));
        }
        assert(false);
    }
    assert("import.bin"@.len() == 10);
}

// ---------------------------------------------------------------------------
// Numbered names for a file that already exists.

/// How many numbered names are tried before the un-numbered name is reused.
pub const NUMBERED_ATTEMPTS: u32 = 999;

/// The `attempt`-th numbered name for a file whose stem is `stem` (`import`
/// when there is none) and whose extension is `ext`: `stem_attempt.ext`.
pub open spec fn numbered_name(stem: Option<Seq<char>>, ext: Option<Seq<char>>, attempt: nat) -> Seq<char> {
    let st = match stem {
        Some(s) => s,
        None => "import"@,
    };
    let dot_ext = match ext {
        Some(e) => "."@ + e,
        None => Seq::empty(),
    };
    st + "_"@ + decimal(attempt) + dot_ext
}

pub open spec fn opt_view(s: Option<&str>) -> Option<Seq<char>> {
    match s {
        Some(t) => Some(t@),
        None => None,
    }
}

/// The name to try at `attempt` when a download's file name is taken:
/// `Some` numbered name for attempts `1..=NUMBERED_ATTEMPTS`, `None` after
/// the last one (the un-numbered name is then used as it is).
pub fn unique_name_candidate(stem: Option<&str>, ext: Option<&str>, attempt: u32) -> (r: Option<String>)
    ensures
        1 <= attempt <= NUMBERED_ATTEMPTS <==> r is Some,
        r matches Some(name) ==> name@ == numbered_name(opt_view(stem), opt_view(ext), attempt as nat),
{
    if attempt < 1 || attempt > NUMBERED_ATTEMPTS {
        return None;
    }
    let mut out = String::new();
    match stem {
        Some(s) => push_str(&mut out, s),
        None => push_str(&mut out, "import"),
    }
    push_str(&mut out, "_");
    let digits = decimal_string(attempt as u64);
    push_str(&mut out, digits.as_str());
    match ext {
        Some(e) => {
            push_str(&mut out, ".");
            push_str(&mut out, e);
        },
        None => {},
    }
    proof {
        let st = match opt_view(stem) {
            Some(s) => s,
            None => "import"@,
        };
        match opt_view(ext) {
            Some(e) => {
                assert(out@ =~= st + "_"@ + decimal(attempt as nat) + ("."@ + e));
            },
            None => {
                assert(out@ =~= st + "_"@ + decimal(attempt as nat) + Seq::<char>::empty());
            },
        }
    }
    Some(out)
}

} // verus!
