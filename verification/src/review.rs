//! File review sessions: language detection, unique display names, tunnel URL discovery,
//! and the bookkeeping of stored review records.
//!
//! Reading files, talking to the tunnel process and serving pages are done by the caller.

use vstd::prelude::*;
use crate::paths::{extension, file_name, file_stem, path_extension, path_file_name, path_file_stem};
use crate::text::{
    append, append_str, chars_of, contains, contains_str, decimal, decimal_u128, eq_chars,
    find, find_chars, lemma_decimal_injective, lowercase, slice, string_of, to_lowercase, trim,
    trim_chars,
};

verus! {

/// One file of a review session.
#[derive(Clone, Debug)]
pub struct ReviewFile {
    pub filename: String,
    pub path: String,
    pub content: String,
    pub size_bytes: usize,
    pub language: String,
    pub is_binary: bool,
}

/// A stored review session: when it was made and which files it refers to.
#[derive(Clone, Debug)]
pub struct ReviewSessionRecord {
    pub created_at_secs: u64,
    pub file_paths: Vec<String>,
}

/// How long stored review records are kept, in seconds (30 days).
pub const RETENTION_SECS: u64 = 2592000;

// ---------------------------------------------------------------------------
// Language
// ---------------------------------------------------------------------------

/// Lowercase file extensions and the viewer language each one selects.
pub open spec fn language_table() -> Seq<(Seq<char>, Seq<char>)> {
    seq![
        ("rs"@, "rust"@),
        ("toml"@, "toml"@),
        ("json"@, "json"@),
        ("jsonl"@, "json"@),
        ("py"@, "python"@),
        ("js"@, "javascript"@),
        ("mjs"@, "javascript"@),
        ("cjs"@, "javascript"@),
        ("ts"@, "typescript"@),
        ("tsx"@, "typescript"@),
        ("sh"@, "bash"@),
        ("bash"@, "bash"@),
        ("html"@, "html"@),
        ("htm"@, "html"@),
        ("css"@, "css"@),
        ("md"@, "markdown"@),
        ("markdown"@, "markdown"@),
        ("yaml"@, "yaml"@),
        ("yml"@, "yaml"@),
        ("sql"@, "sql"@),
        ("c"@, "c"@),
        ("h"@, "c"@),
        ("cpp"@, "cpp"@),
        ("hpp"@, "cpp"@),
        ("cc"@, "cpp"@),
        ("mp4"@, "video"@),
        ("mov"@, "video"@),
        ("webm"@, "video"@),
        ("mkv"@, "video"@),
        ("avi"@, "video"@),
        ("m4v"@, "video"@),
        ("mp3"@, "audio"@),
        ("wav"@, "audio"@),
        ("ogg"@, "audio"@),
        ("m4a"@, "audio"@),
        ("flac"@, "audio"@),
        ("aac"@, "audio"@),
        ("png"@, "image"@),
        ("jpg"@, "image"@),
        ("jpeg"@, "image"@),
        ("gif"@, "image"@),
        ("webp"@, "image"@),
        ("svg"@, "svg"@),
        ("pdf"@, "pdf"@)
    ]
}

fn language_rows() -> (r: Vec<(&'static str, &'static str)>)
    ensures
        r@.len() == language_table().len(),
        forall|i: int|
            0 <= i < r@.len() ==> (#[trigger] r@[i]).0@ == language_table()[i].0 && r@[i].1@
                == language_table()[i].1,
{
    let mut r: Vec<(&'static str, &'static str)> = Vec::new();
    r.push(("rs", "rust"));
    r.push(("toml", "toml"));
    r.push(("json", "json"));
    r.push(("jsonl", "json"));
    r.push(("py", "python"));
    r.push(("js", "javascript"));
    r.push(("mjs", "javascript"));
    r.push(("cjs", "javascript"));
    r.push(("ts", "typescript"));
    r.push(("tsx", "typescript"));
    r.push(("sh", "bash"));
    r.push(("bash", "bash"));
    r.push(("html", "html"));
    r.push(("htm", "html"));
    r.push(("css", "css"));
    r.push(("md", "markdown"));
    r.push(("markdown", "markdown"));
    r.push(("yaml", "yaml"));
    r.push(("yml", "yaml"));
    r.push(("sql", "sql"));
    r.push(("c", "c"));
    r.push(("h", "c"));
    r.push(("cpp", "cpp"));
    r.push(("hpp", "cpp"));
    r.push(("cc", "cpp"));
    r.push(("mp4", "video"));
    r.push(("mov", "video"));
    r.push(("webm", "video"));
    r.push(("mkv", "video"));
    r.push(("avi", "video"));
    r.push(("m4v", "video"));
    r.push(("mp3", "audio"));
    r.push(("wav", "audio"));
    r.push(("ogg", "audio"));
    r.push(("m4a", "audio"));
    r.push(("flac", "audio"));
    r.push(("aac", "audio"));
    r.push(("png", "image"));
    r.push(("jpg", "image"));
    r.push(("jpeg", "image"));
    r.push(("gif", "image"));
    r.push(("webp", "image"));
    r.push(("svg", "svg"));
    r.push(("pdf", "pdf"));
    r
}

/// The language of the first table row from `k` on whose extension is `ext`.
pub open spec fn language_from(ext: Seq<char>, k: int) -> Seq<char>
    decreases language_table().len() - k,
{
    if k < 0 || k >= language_table().len() {
        "plaintext"@
    } else if language_table()[k].0 == ext {
        language_table()[k].1
    } else {
        language_from(ext, k + 1)
    }
}

/// The viewer language of a path: looked up by its lowercased extension.
pub open spec fn language_of(path: Seq<char>) -> Seq<char> {
    let ext = match path_extension(path) {
        Some(e) => e,
        None => Seq::empty(),
    };
    language_from(lowercase(ext), 0)
}

/// Detects the viewer language of a file from its extension ("plaintext" when unknown).
pub fn detect_language(path: &str) -> (r: String)
    ensures
        r@ == language_of(path@),
{
    let ext: Vec<char> = match extension(path) {
        Some(e) => chars_of(e.as_str()),
        None => Vec::new(),
    };
    let low = to_lowercase(&ext);
    let rows = language_rows();
    assert(language_of(path@) == language_from(low@, 0));
    let mut i: usize = 0;
    while i < rows.len()
        invariant
            i <= rows@.len(),
            rows@.len() == language_table().len(),
            forall|j: int|
                0 <= j < rows@.len() ==> (#[trigger] rows@[j]).0@ == language_table()[j].0
                    && rows@[j].1@ == language_table()[j].1,
            language_from(low@, 0) == language_from(low@, i as int),
            language_of(path@) == language_from(low@, 0),
        decreases rows.len() - i,
    {
        let (e, lang) = rows[i];
        if crate::text::eq_str(&low, e) {
            assert(language_table()[i as int].0 == low@);
            assert(language_from(low@, i as int) == language_table()[i as int].1);
            let out = lang.to_owned();
            assert(out@ == lang@);
            return out;
        }
        i = i + 1;
    }
    "plaintext".to_owned()
}

/// Whether a language is shown as media rather than as text.
pub open spec fn is_media_language(lang: Seq<char>) -> bool {
    lang == "video"@ || lang == "audio"@ || lang == "image"@ || lang == "pdf"@
}

/// Whether files of a detected language are media (video, audio, image, pdf).
pub fn is_media(language: &str) -> (r: bool)
    ensures
        r == is_media_language(language@),
{
    let l = chars_of(language);
    crate::text::eq_str(&l, "video") || crate::text::eq_str(&l, "audio") || crate::text::eq_str(&l, "image")
        || crate::text::eq_str(&l, "pdf")
}

// ---------------------------------------------------------------------------
// File snapshots
// ---------------------------------------------------------------------------

/// Files larger than this many bytes are not read into a snapshot.
pub const LARGE_FILE_BYTES: usize = 10000000;

/// How a file's snapshot gets its content.
#[derive(Clone, Copy, Debug, PartialEq, Eq)]
pub enum ContentPlan {
    /// Media are served from disk: no content is read.
    Media,
    /// Too large: the content is a note saying so.
    TooLarge,
    /// The file is read as text.
    ReadText,
}

/// The plan for a file of the given viewer language and size.
pub open spec fn content_plan_of(language: Seq<char>, size_bytes: usize) -> ContentPlan {
    if is_media_language(language) {
        ContentPlan::Media
    } else if size_bytes > LARGE_FILE_BYTES {
        ContentPlan::TooLarge
    } else {
        ContentPlan::ReadText
    }
}

/// Decides how a file's snapshot gets its content.
pub fn content_plan(language: &str, size_bytes: usize) -> (r: ContentPlan)
    ensures
        r == content_plan_of(language@, size_bytes),
{
    if is_media(language) {
        ContentPlan::Media
    } else if size_bytes > LARGE_FILE_BYTES {
        ContentPlan::TooLarge
    } else {
        ContentPlan::ReadText
    }
}

/// The content shown in place of a file that is too large.
pub open spec fn too_large_note(size_bytes: nat) -> Seq<char> {
    "// File exceeds 10MB ("@ + decimal(size_bytes) + " bytes). Download directly to inspect."@
}

/// The number of bytes of a text in UTF-8.
pub open spec fn byte_len(s: Seq<char>) -> nat {
    vstd::utf8::encode_utf8(s).len()
}

/// Assembles the snapshot of a file of `size_bytes` bytes on disk; `text` is its content
/// read as text, when it could be read so (consulted only when the plan is to read it).
/// Media, and files that cannot be read as text, are binary with no content and keep the
/// size on disk; otherwise the size is that of the content.
pub fn review_file_from(
    filename: String,
    path: String,
    language: String,
    size_bytes: usize,
    text: Option<String>,
) -> (f: ReviewFile)
    ensures
        f.filename == filename,
        f.path == path,
        f.language == language,
        match content_plan_of(language@, size_bytes) {
            ContentPlan::Media => f.content@ == Seq::<char>::empty() && f.is_binary && f.size_bytes == size_bytes,
            ContentPlan::TooLarge => {
                &&& f.content@ == too_large_note(size_bytes as nat)
                &&& !f.is_binary
                &&& f.size_bytes == byte_len(f.content@) as usize
            },
            ContentPlan::ReadText => match text {
                Some(t) => f.content@ == t@ && !f.is_binary && f.size_bytes == byte_len(t@) as usize,
                None => f.content@ == Seq::<char>::empty() && f.is_binary && f.size_bytes == size_bytes,
            },
        },
{
    let (content, is_binary): (String, bool) = match content_plan(language.as_str(), size_bytes) {
        ContentPlan::Media => (String::new(), true),
        ContentPlan::TooLarge => {
            let mut note = chars_of("// File exceeds 10MB (");
            append(&mut note, &decimal_u128(size_bytes as u128));
            append_str(&mut note, " bytes). Download directly to inspect.");
            (string_of(&note), false)
        },
        ContentPlan::ReadText => match text {
            Some(t) => (t, false),
            None => (String::new(), true),
        },
    };
    let size = if is_binary { size_bytes } else { content.as_str().len() };
    ReviewFile { filename, path, content, size_bytes: size, language, is_binary }
}

// ---------------------------------------------------------------------------
// Unique names
// ---------------------------------------------------------------------------

/// The display name a path starts from.
pub open spec fn base_name(path: Seq<char>) -> Seq<char> {
    match path_file_name(path) {
        Some(n) => n,
        None => "file"@,
    }
}

/// The `n`-th alternative display name: `{stem}_{n}{.ext}`.
pub open spec fn numbered_name(path: Seq<char>, n: nat) -> Seq<char> {
    let stem = match path_file_stem(path) {
        Some(s) => s,
        None => "file"@,
    };
    let ext = match path_extension(path) {
        Some(e) => "."@ + e,
        None => Seq::empty(),
    };
    stem + "_"@ + decimal(n) + ext
}

/// The views of a list of strings.
pub open spec fn names(v: Seq<String>) -> Seq<Seq<char>> {
    v.map_values(|s: String| s@)
}

fn name_taken(used: &Vec<String>, name: &Vec<char>) -> (r: bool)
    ensures
        r == names(used@).contains(name@),
{
    let mut i: usize = 0;
    while i < used.len()
        invariant
            i <= used@.len(),
            forall|j: int| 0 <= j < i ==> names(used@)[j] != name@,
        decreases used.len() - i,
    {
        if eq_chars(&chars_of(used[i].as_str()), name) {
            assert(names(used@)[i as int] == name@);
            return true;
        }
        i = i + 1;
    }
    false
}

/// `r` is the name claimed against the names in `used`: `first` when it is free, else the
/// first free numbered name of `source` (`{stem}_{n}{.ext}` for n = 2, 3, ...).
pub open spec fn claimed(used: Seq<Seq<char>>, first: Seq<char>, source: Seq<char>, r: Seq<char>) -> bool {
    if !used.contains(first) {
        r == first
    } else {
        exists|k: nat| {
            &&& k >= 2
            &&& r == numbered_name(source, k)
            &&& !used.contains(numbered_name(source, k))
            &&& forall|j: nat| 2 <= j < k ==> used.contains(#[trigger] numbered_name(source, j))
        }
    }
}

/// A claimed name is never one already in use.
pub proof fn lemma_claimed_is_fresh(used: Seq<Seq<char>>, first: Seq<char>, source: Seq<char>, r: Seq<char>)
    requires
        claimed(used, first, source, r),
    ensures
        !used.contains(r),
{
}

/// The claimed name is determined by the names in use, the first choice and its source.
pub proof fn lemma_claimed_unique(
    used: Seq<Seq<char>>,
    first: Seq<char>,
    source: Seq<char>,
    a: Seq<char>,
    b: Seq<char>,
)
    requires
        claimed(used, first, source, a),
        claimed(used, first, source, b),
    ensures
        a == b,
{
    if used.contains(first) {
        let ka = choose|k: nat| {
            &&& k >= 2
            &&& a == numbered_name(source, k)
            &&& !used.contains(numbered_name(source, k))
            &&& forall|j: nat| 2 <= j < k ==> used.contains(#[trigger] numbered_name(source, j))
        };
        let kb = choose|k: nat| {
            &&& k >= 2
            &&& b == numbered_name(source, k)
            &&& !used.contains(numbered_name(source, k))
            &&& forall|j: nat| 2 <= j < k ==> used.contains(#[trigger] numbered_name(source, j))
        };
        if ka < kb {
            assert(used.contains(numbered_name(source, ka)));
        } else if kb < ka {
            assert(used.contains(numbered_name(source, kb)));
        }
    }
}

/// A name no entry of `used_names` holds: `first` itself, or else the first free
/// numbered name of `source`; the name is then recorded as used.
pub fn claim_name(first: Vec<char>, source: &str, used_names: &mut Vec<String>) -> (r: String)
    ensures
        claimed(names(old(used_names)@), first@, source@, r@),
        final(used_names)@ == old(used_names)@.push(r),
{
    let mut filename = first;
    if name_taken(used_names, &filename) {
        let stem: Vec<char> = match file_stem(source) {
            Some(s) => chars_of(s.as_str()),
            None => chars_of("file"),
        };
        let ext: Vec<char> = match extension(source) {
            Some(e) => {
                let mut x: Vec<char> = Vec::new();
                append_str(&mut x, ".");
                append(&mut x, &chars_of(e.as_str()));
                x
            },
            None => Vec::new(),
        };
        let n = used_names.len();
        let mut counter: u128 = 2;
        let mut candidate = numbered(&stem, counter, &ext);
        while counter <= (n as u128) + 2 && name_taken(used_names, &candidate)
            invariant
                2 <= counter <= (n as u128) + 3,
                n == used_names@.len(),
                candidate@ == numbered_name(source@, counter as nat),
                stem@ == match path_file_stem(source@) { Some(s) => s, None => "file"@ },
                ext@ == match path_extension(source@) { Some(e) => "."@ + e, None => Seq::<char>::empty() },
                forall|j: nat| 2 <= j < counter ==> names(used_names@).contains(#[trigger] numbered_name(source@, j)),
            decreases (n as u128) + 3 - counter,
        {
            counter = counter + 1;
            candidate = numbered(&stem, counter, &ext);
        }
        proof {
            if counter > (n as u128) + 2 {
                lemma_too_many_taken(source@, names(used_names@), counter as nat);
            }
        }
        filename = candidate;
    }
    let r = string_of(&filename);
    used_names.push(r.clone());
    r
}

/// Chooses a display name for a file that no earlier file of the session uses: its own
/// name, or else the first free `{stem}_{n}{.ext}` for n = 2, 3, ...; the name is then
/// recorded as used.
pub fn resolve_unique_filename(path: &str, used_names: &mut Vec<String>) -> (r: String)
    ensures
        !names(old(used_names)@).contains(base_name(path@)) ==> r@ == base_name(path@),
        names(old(used_names)@).contains(base_name(path@)) ==> exists|k: nat| {
            &&& k >= 2
            &&& r@ == numbered_name(path@, k)
            &&& !names(old(used_names)@).contains(numbered_name(path@, k))
            &&& forall|j: nat| 2 <= j < k ==> names(old(used_names)@).contains(#[trigger] numbered_name(path@, j))
        },
        final(used_names)@ == old(used_names)@.push(r),
{
    let first: Vec<char> = match file_name(path) {
        Some(n) => chars_of(n.as_str()),
        None => chars_of("file"),
    };
    claim_name(first, path, used_names)
}

/// `{stem}_{counter}{ext}`.
fn numbered(stem: &Vec<char>, counter: u128, ext: &Vec<char>) -> (r: Vec<char>)
    ensures
        r@ == stem@ + "_"@ + decimal(counter as nat) + ext@,
{
    let mut r = stem.clone();
    append_str(&mut r, "_");
    append(&mut r, &decimal_u128(counter));
    append(&mut r, ext);
    r
}

/// Distinct counters give distinct numbered names.
proof fn lemma_numbered_injective(path: Seq<char>, a: nat, b: nat)
    requires
        numbered_name(path, a) == numbered_name(path, b),
    ensures
        a == b,
{
    let stem = match path_file_stem(path) {
        Some(s) => s,
        None => "file"@,
    };
    let ext = match path_extension(path) {
        Some(e) => "."@ + e,
        None => Seq::<char>::empty(),
    };
    let pre = stem + "_"@;
    let x = numbered_name(path, a);
    assert(x == pre + decimal(a) + ext);
    assert(numbered_name(path, b) == pre + decimal(b) + ext);
    assert(decimal(a).len() == decimal(b).len());
    assert(decimal(a) =~= x.subrange(pre.len() as int, (pre.len() + decimal(a).len()) as int));
    assert(decimal(b) =~= x.subrange(pre.len() as int, (pre.len() + decimal(b).len()) as int));
    lemma_decimal_injective(a, b);
}

/// When the names numbered 2 up to `k - 1` are all in use, at least `k - 2` names are in
/// use.
proof fn lemma_too_many_taken(path: Seq<char>, used: Seq<Seq<char>>, k: nat)
    requires
        k >= 2,
        forall|j: nat| 2 <= j < k ==> used.contains(#[trigger] numbered_name(path, j)),
    ensures
        k - 2 <= used.len(),
{
    let cands = Seq::new((k - 2) as nat, |i: int| numbered_name(path, (i + 2) as nat));
    assert forall|i: int, j: int| 0 <= i < cands.len() && 0 <= j < cands.len() && i != j implies cands[i] != cands[j] by {
        if cands[i] == cands[j] {
            lemma_numbered_injective(path, (i + 2) as nat, (j + 2) as nat);
        }
    }
    cands.unique_seq_to_set();
    used.lemma_cardinality_of_set();
    vstd::seq_lib::seq_to_set_is_finite(used);
    assert forall|x: Seq<char>| cands.to_set().contains(x) implies used.to_set().contains(x) by {
        let i = choose|i: int| 0 <= i < cands.len() && cands[i] == x;
        assert(used.contains(numbered_name(path, (i + 2) as nat)));
    }
    vstd::set_lib::lemma_len_subset(cands.to_set(), used.to_set());
}

// ---------------------------------------------------------------------------
// Tunnel URL
// ---------------------------------------------------------------------------

/// The quick-tunnel URL announced on a line of `cloudflared` output, if any: from
/// `https://` to the end of the first `.trycloudflare.com`, trimmed; lines about the API
/// host and the bare domain are ignored.
pub open spec fn tunnel_url(line: Seq<char>) -> Option<Seq<char>> {
    if contains(line, "api.trycloudflare.com"@) {
        None
    } else {
        match find(line, "https://"@) {
            None => None,
            Some(pos) => {
                let sub = line.skip(pos);
                match find(sub, ".trycloudflare.com"@) {
                    None => None,
                    Some(end) => {
                        let url = trim(sub.take(end + ".trycloudflare.com"@.len()));
                        if contains(url, "api.trycloudflare.com"@) || url == "https://trycloudflare.com"@ {
                            None
                        } else {
                            Some(url)
                        }
                    },
                }
            },
        }
    }
}

/// Extracts the quick-tunnel URL from a line of `cloudflared` output.
pub fn parse_tunnel_url(line: &str) -> (r: Option<String>)
    ensures
        r is None <==> tunnel_url(line@) is None,
        r matches Some(u) ==> tunnel_url(line@) == Some(u@),
{
    let l = chars_of(line);
    if contains_str(&l, "api.trycloudflare.com") {
        return None;
    }
    let pos = match find_chars(&l, &chars_of("https://")) {
        Some(p) => p,
        None => return None,
    };
    proof {
        crate::remote_hub::lemma_find_in_bounds(l@, "https://"@, 0);
    }
    let sub = slice(&l, pos, l.len());
    assert(sub@ == l@.skip(pos as int));
    let domain = chars_of(".trycloudflare.com");
    let end = match find_chars(&sub, &domain) {
        Some(e) => e,
        None => return None,
    };
    proof {
        crate::remote_hub::lemma_find_in_bounds(sub@, domain@, 0);
    }
    let taken = slice(&sub, 0, end + domain.len());
    assert(taken@ == sub@.take(end + domain@.len()));
    let url = trim_chars(&taken);
    if contains_str(&url, "api.trycloudflare.com") || crate::text::eq_str(&url, "https://trycloudflare.com") {
        None
    } else {
        Some(string_of(&url))
    }
}

// ---------------------------------------------------------------------------
// Records
// ---------------------------------------------------------------------------

#[verifier::external_type_specification]
#[verifier::external_body]
pub struct ExSystemTime(std::time::SystemTime);

#[verifier::external_type_specification]
#[verifier::external_body]
pub struct ExSystemTimeError(std::time::SystemTimeError);

/// Wraps `SystemTime::now`: the clock's reading, of which nothing is said.
#[verifier::external_body]
fn system_now() -> (t: std::time::SystemTime) {
    std::time::SystemTime::now()
}

/// Wraps `SystemTime::duration_since` with the Unix epoch: the time elapsed since it, or
/// an error when the clock reads earlier; nothing is said of either.
#[verifier::external_body]
fn since_unix_epoch(t: &std::time::SystemTime) -> (r: Result<std::time::Duration, std::time::SystemTimeError>) {
    t.duration_since(std::time::UNIX_EPOCH)
}

/// Wraps `Duration::as_secs`: the whole seconds of a duration, which is opaque here.
#[verifier::external_body]
fn whole_seconds(d: &std::time::Duration) -> (r: u64) {
    d.as_secs()
}

/// The clock's reading in whole seconds since the Unix epoch (0 when it reads earlier);
/// a reading of the clock, so nothing is promised of its value.
pub fn current_unix_secs() -> (r: u64) {
    match since_unix_epoch(&system_now()) {
        Ok(d) => whole_seconds(&d),
        Err(_) => 0,
    }
}

/// Whether a record made at `created` is still kept at time `now`.
pub open spec fn retained(now: u64, created: u64) -> bool {
    (if now >= created { now - created } else { 0 }) < RETENTION_SECS
}

/// Whether a record made at `created_at_secs` is still kept at time `now`.
pub fn is_retained(now: u64, created_at_secs: u64) -> (r: bool)
    ensures
        r == retained(now, created_at_secs),
{
    now.saturating_sub(created_at_secs) < RETENTION_SECS
}

/// The files of a record that still exist (`exists[i]` tells whether `file_paths[i]` is a
/// file), and the number of files the record lists.
pub fn check_record_files(record: &ReviewSessionRecord, exists: &Vec<bool>) -> (r: (Vec<String>, usize))
    requires
        exists@.len() == record.file_paths@.len(),
    ensures
        r.1 == record.file_paths@.len(),
        r.0@ == present_paths(record.file_paths@, exists@),
{
    let mut valid: Vec<String> = Vec::new();
    let mut i: usize = 0;
    while i < record.file_paths.len()
        invariant
            i <= record.file_paths@.len(),
            exists@.len() == record.file_paths@.len(),
            valid@ == present_paths(record.file_paths@.take(i as int), exists@.take(i as int)),
        decreases record.file_paths.len() - i,
    {
        assert(record.file_paths@.take(i + 1).drop_last() == record.file_paths@.take(i as int));
        assert(exists@.take(i + 1).drop_last() == exists@.take(i as int));
        if exists[i] {
            valid.push(record.file_paths[i].clone());
        }
        i = i + 1;
    }
    assert(record.file_paths@.take(record.file_paths@.len() as int) == record.file_paths@);
    assert(exists@.take(exists@.len() as int) == exists@);
    (valid, record.file_paths.len())
}

/// The paths whose flag says they exist, in order.
pub open spec fn present_paths(paths: Seq<String>, exists: Seq<bool>) -> Seq<String>
    decreases paths.len(),
{
    if paths.len() == 0 || exists.len() != paths.len() {
        Seq::empty()
    } else if exists.last() {
        present_paths(paths.drop_last(), exists.drop_last()).push(paths.last())
    } else {
        present_paths(paths.drop_last(), exists.drop_last())
    }
}

/// The toast shown when a review session is re-activated.
pub open spec fn activation_toast(valid: nat, total: nat) -> Seq<char> {
    if valid < total {
        "⚠️ 일부 파일 삭제됨 ("@ + decimal(total) + "개 중 "@ + decimal(valid)
            + "개 유효). [🌐 뷰어 열기]를 눌러주세요."@
    } else {
        "✅ 뷰어 링크가 활성화되었습니다. [🌐 뷰어 열기]를 눌러주세요."@
    }
}

/// The toast shown when a review session is re-activated with `valid` of `total` files.
pub fn format_activation_toast(valid: usize, total: usize) -> (r: String)
    ensures
        r@ == activation_toast(valid as nat, total as nat),
{
    let mut out: Vec<char> = Vec::new();
    if valid < total {
        append_str(&mut out, "⚠️ 일부 파일 삭제됨 (");
        append(&mut out, &decimal_u128(total as u128));
        append_str(&mut out, "개 중 ");
        append(&mut out, &decimal_u128(valid as u128));
        append_str(&mut out, "개 유효). [🌐 뷰어 열기]를 눌러주세요.");
    } else {
        append_str(&mut out, "✅ 뷰어 링크가 활성화되었습니다. [🌐 뷰어 열기]를 눌러주세요.");
    }
    string_of(&out)
}

// ---------------------------------------------------------------------------
// Viewer addresses
// ---------------------------------------------------------------------------

/// The viewer address of a session: under the tunnel when one is up, else on the local
/// server's port.
pub open spec fn review_url_of(tunnel: Option<Seq<char>>, port: u16, token: Seq<char>) -> Seq<char> {
    match tunnel {
        Some(base) => base + "/review/"@ + token,
        None => "http://127.0.0.1:"@ + decimal(port as nat) + "/review/"@ + token,
    }
}

/// Builds the viewer address of a session.
pub fn review_url(tunnel: Option<&str>, port: u16, token: &str) -> (r: String)
    ensures
        r@ == review_url_of(
            match tunnel {
                Some(t) => Some(t@),
                None => None,
            },
            port,
            token@,
        ),
{
    let mut u: Vec<char> = match tunnel {
        Some(base) => chars_of(base),
        None => {
            let mut l = chars_of("http://127.0.0.1:");
            append(&mut l, &decimal_u128(port as u128));
            l
        },
    };
    append_str(&mut u, "/review/");
    append_str(&mut u, token);
    string_of(&u)
}

/// The address the tunnel forwards to.
pub fn tunnel_target(port: u16) -> (r: String)
    ensures
        r@ == "http://127.0.0.1:"@ + decimal(port as nat),
{
    let mut l = chars_of("http://127.0.0.1:");
    append(&mut l, &decimal_u128(port as u128));
    string_of(&l)
}

/// The `Content-Disposition` value of a download.
pub fn download_disposition(filename: &str) -> (r: String)
    ensures
        r@ == "attachment; filename=\""@ + filename@ + "\""@,
{
    let mut d = chars_of("attachment; filename=\"");
    append_str(&mut d, filename);
    append_str(&mut d, "\"");
    string_of(&d)
}

/// Where the tunnel program is looked for, in order.
pub fn cloudflared_candidates(home: &str) -> (r: Vec<String>)
    ensures
        names(r@) == seq![
            crate::paths::path_joined(home@, ".tuner/bin/cloudflared"@),
            "/usr/local/bin/cloudflared"@,
            "/usr/bin/cloudflared"@,
        ],
{
    let mut v: Vec<String> = Vec::new();
    v.push(crate::paths::join_path(home, ".tuner/bin/cloudflared"));
    v.push("/usr/local/bin/cloudflared".to_owned());
    v.push("/usr/bin/cloudflared".to_owned());
    assert(names(v@) =~= seq![
        crate::paths::path_joined(home@, ".tuner/bin/cloudflared"@),
        "/usr/local/bin/cloudflared"@,
        "/usr/bin/cloudflared"@,
    ]);
    v
}

/// The paths of the files of a session shown under `filename`, in order.
pub open spec fn paths_named(files: Seq<ReviewFile>, filename: Seq<char>) -> Seq<Seq<char>>
    decreases files.len(),
{
    if files.len() == 0 {
        Seq::empty()
    } else {
        let prior = paths_named(files.drop_last(), filename);
        if files.last().filename@ == filename {
            prior.push(files.last().path@)
        } else {
            prior
        }
    }
}

/// The paths of the files of a session shown under `filename`; the first that is still a
/// file is served.
pub fn file_paths_named(files: &Vec<ReviewFile>, filename: &str) -> (r: Vec<String>)
    ensures
        names(r@) == paths_named(files@, filename@),
{
    let wanted = chars_of(filename);
    let mut out: Vec<String> = Vec::new();
    let mut i: usize = 0;
    while i < files.len()
        invariant
            i <= files@.len(),
            wanted@ == filename@,
            names(out@) == paths_named(files@.take(i as int), filename@),
        decreases files.len() - i,
    {
        assert(files@.take(i + 1).drop_last() =~= files@.take(i as int));
        if eq_chars(&chars_of(files[i].filename.as_str()), &wanted) {
            let ghost before = names(out@);
            out.push(files[i].path.clone());
            assert(names(out@) =~= before.push(files@[i as int].path@));
        }
        i = i + 1;
    }
    assert(files@.take(files@.len() as int) =~= files@);
    out
}

} // verus!
