//! Path handling: the `std::path` operations the library relies on, and the sandbox check
//! that keeps file access inside allowed root directories.
//!
//! Resolving a path (following links, completing it against the disk) is done by the
//! caller; the check here decides on the raw path and the resolved forms it is handed.

use vstd::prelude::*;
use crate::text::{append, append_str, chars_of, join, string_of};

verus! {

/// What `Path::file_name` returns for the path `p`, as text.
pub uninterp spec fn path_file_name(p: Seq<char>) -> Option<Seq<char>>;

/// What `Path::extension` returns for the path `p`, as text.
pub uninterp spec fn path_extension(p: Seq<char>) -> Option<Seq<char>>;

/// What `Path::file_stem` returns for the path `p`, as text.
pub uninterp spec fn path_file_stem(p: Seq<char>) -> Option<Seq<char>>;

/// What `Path::parent` returns for the path `p`, as text.
pub uninterp spec fn path_parent(p: Seq<char>) -> Option<Seq<char>>;

/// What `Path::join` returns for `base` joined with `rel`, as text.
pub uninterp spec fn path_joined(base: Seq<char>, rel: Seq<char>) -> Seq<char>;

/// What `Path::starts_with` returns: whether `base` is a component-wise prefix of `p`.
pub uninterp spec fn path_has_prefix(p: Seq<char>, base: Seq<char>) -> bool;

/// What `Path::eq` returns: whether the two paths have the same components.
pub uninterp spec fn path_equal(a: Seq<char>, b: Seq<char>) -> bool;

/// Wraps `Path::eq`: the result is the name `path_equal` of the two paths.
#[verifier::external_body]
pub(crate) fn same_path(a: &str, b: &str) -> (r: bool)
    ensures
        r == path_equal(a@, b@),
{
    std::path::Path::new(a) == std::path::Path::new(b)
}

/// Wraps `Path::file_name`.
#[verifier::external_body]
pub(crate) fn file_name(p: &str) -> (r: Option<String>)
    ensures
        r is None <==> path_file_name(p@) is None,
        r matches Some(n) ==> path_file_name(p@) == Some(n@),
{
    match std::path::Path::new(p).file_name() {
        Some(n) => Some(n.to_string_lossy().into_owned()),
        None => None,
    }
}

/// Wraps `Path::extension`.
#[verifier::external_body]
pub(crate) fn extension(p: &str) -> (r: Option<String>)
    ensures
        r is None <==> path_extension(p@) is None,
        r matches Some(n) ==> path_extension(p@) == Some(n@),
{
    match std::path::Path::new(p).extension() {
        Some(n) => Some(n.to_string_lossy().into_owned()),
        None => None,
    }
}

/// Wraps `Path::file_stem`.
#[verifier::external_body]
pub(crate) fn file_stem(p: &str) -> (r: Option<String>)
    ensures
        r is None <==> path_file_stem(p@) is None,
        r matches Some(n) ==> path_file_stem(p@) == Some(n@),
{
    match std::path::Path::new(p).file_stem() {
        Some(n) => Some(n.to_string_lossy().into_owned()),
        None => None,
    }
}

/// Wraps `Path::parent`.
#[verifier::external_body]
pub(crate) fn parent(p: &str) -> (r: Option<String>)
    ensures
        r is None <==> path_parent(p@) is None,
        r matches Some(n) ==> path_parent(p@) == Some(n@),
{
    match std::path::Path::new(p).parent() {
        Some(n) => Some(n.to_string_lossy().into_owned()),
        None => None,
    }
}

/// Wraps `Path::join`.
#[verifier::external_body]
pub(crate) fn join_path(base: &str, rel: &str) -> (r: String)
    ensures
        r@ == path_joined(base@, rel@),
{
    std::path::Path::new(base).join(rel).to_string_lossy().into_owned()
}

/// Wraps `Path::starts_with`.
#[verifier::external_body]
pub(crate) fn path_starts_with(p: &str, base: &str) -> (r: bool)
    ensures
        r == path_has_prefix(p@, base@),
{
    std::path::Path::new(p).starts_with(base)
}

/// Why a path was refused.
#[derive(Debug, Clone, PartialEq, Eq)]
pub enum PathValidationError {
    NullByte(String),
    ControlCharacters(String),
    OutsideAllowedRoots(String, Vec<String>),
    IoError(String),
}

/// The path holds a NUL character.
pub open spec fn has_nul(p: Seq<char>) -> bool {
    exists|i: int| 0 <= i < p.len() && p[i] == '\0'
}

/// The path holds a control character other than a newline.
pub open spec fn has_control(p: Seq<char>) -> bool {
    exists|i: int| 0 <= i < p.len() && (p[i] as u32) < 32 && p[i] != '\n'
}

/// Some resolved root is a component-wise prefix of the resolved path.
pub open spec fn inside_some_root(resolved: Seq<char>, roots: Seq<Option<String>>) -> bool {
    exists|i: int|
        0 <= i < roots.len() && (#[trigger] roots[i] matches Some(root) && path_has_prefix(
            resolved,
            root@,
        ))
}

/// Checks a path against the allowed roots. `resolved` is the outcome of resolving `path`
/// (links followed, relative parts completed), and `resolved_roots[i]` that of resolving
/// `allowed_roots[i]` (`None` where that failed). The checks run in order: NUL byte,
/// other control characters, resolution failure, containment in some root.
pub fn validate_file_path(
    path: &str,
    resolved: Result<String, String>,
    resolved_roots: &Vec<Option<String>>,
    allowed_roots: &Vec<String>,
) -> (r: Result<String, PathValidationError>)
    ensures
        has_nul(path@) ==> (r matches Err(PathValidationError::NullByte(raw)) && raw@ == path@),
        !has_nul(path@) && has_control(path@) ==> (r matches Err(
            PathValidationError::ControlCharacters(raw),
        ) && raw@ == path@),
        !has_nul(path@) && !has_control(path@) ==> match resolved {
            Err(e) => r == Err::<String, PathValidationError>(PathValidationError::IoError(e)),
            Ok(p) => if inside_some_root(p@, resolved_roots@) {
                r == Ok::<String, PathValidationError>(p)
            } else {
                r matches Err(PathValidationError::OutsideAllowedRoots(q, roots)) && q == p
                    && roots@ == allowed_roots@
            },
        },
{
    let raw = chars_of(path);
    let mut i: usize = 0;
    while i < raw.len()
        invariant
            i <= raw@.len(),
            raw@ == path@,
            forall|j: int| 0 <= j < i ==> raw@[j] != '\0',
        decreases raw.len() - i,
    {
        if raw[i] == '\0' {
            return Err(PathValidationError::NullByte(path.to_owned()));
        }
        i = i + 1;
    }
    let mut i: usize = 0;
    while i < raw.len()
        invariant
            i <= raw@.len(),
            raw@ == path@,
            !has_nul(path@),
            forall|j: int| 0 <= j < i ==> !((raw@[j] as u32) < 32 && raw@[j] != '\n'),
        decreases raw.len() - i,
    {
        if (raw[i] as u32) < 32 && raw[i] != '\n' {
            return Err(PathValidationError::ControlCharacters(path.to_owned()));
        }
        i = i + 1;
    }
    let res_path = match &resolved {
        Ok(p) => p.clone(),
        Err(e) => return Err(PathValidationError::IoError(e.clone())),
    };
    let mut k: usize = 0;
    while k < resolved_roots.len()
        invariant
            k <= resolved_roots@.len(),
            !has_nul(path@),
            !has_control(path@),
            resolved == Ok::<String, String>(res_path),
            forall|j: int|
                0 <= j < k ==> !(#[trigger] resolved_roots@[j] matches Some(root)
                    && path_has_prefix(res_path@, root@)),
        decreases resolved_roots.len() - k,
    {
        match &resolved_roots[k] {
            Some(root) => {
                if path_starts_with(res_path.as_str(), root.as_str()) {
                    return Ok(res_path);
                }
            },
            None => {},
        }
        k = k + 1;
    }
    Err(PathValidationError::OutsideAllowedRoots(res_path, clone_strings(allowed_roots)))
}

/// A copy of a vector of strings.
fn clone_strings(v: &Vec<String>) -> (r: Vec<String>)
    ensures
        r@ == v@,
{
    let mut r: Vec<String> = Vec::new();
    let mut i: usize = 0;
    while i < v.len()
        invariant
            i <= v@.len(),
            r@ == v@.take(i as int),
        decreases v.len() - i,
    {
        r.push(v[i].clone());
        assert(v@.take(i + 1) == v@.take(i as int).push(v@[i as int]));
        i = i + 1;
    }
    assert(v@.take(v@.len() as int) == v@);
    r
}

/// `validate_file_path` as a yes/no answer.
pub fn is_path_safe(
    path: &str,
    resolved: Result<String, String>,
    resolved_roots: &Vec<Option<String>>,
    allowed_roots: &Vec<String>,
) -> (r: bool)
    ensures
        r == (!has_nul(path@) && !has_control(path@) && (resolved matches Ok(p)
            && inside_some_root(p@, resolved_roots@))),
{
    validate_file_path(path, resolved, resolved_roots, allowed_roots).is_ok()
}

/// What `format!("{:?}", s)` writes for a string: it quoted, with escapes.
pub uninterp spec fn str_debug(s: Seq<char>) -> Seq<char>;

/// What `format!("{:?}", Path::new(p))` writes for a path.
pub uninterp spec fn path_debug(p: Seq<char>) -> Seq<char>;

/// Wraps `format!("{:?}", s)` for a string: the result is the name `str_debug` of it.
#[verifier::external_body]
fn debug_str(s: &str) -> (r: String)
    ensures
        r@ == str_debug(s@),
{
    format!("{:?}", s)
}

/// Wraps `format!("{:?}", Path::new(p))`: the result is the name `path_debug` of it.
#[verifier::external_body]
fn debug_path(p: &str) -> (r: String)
    ensures
        r@ == path_debug(p@),
{
    format!("{:?}", std::path::Path::new(p))
}

/// The debug form of a list of paths: `[` and `]` around their debug forms, separated by
/// `, `.
pub open spec fn path_list_debug(ps: Seq<String>) -> Seq<char> {
    "["@ + join(ps.map_values(|p: String| path_debug(p@)), ", "@) + "]"@
}

/// The message of a refusal, as shown to users.
pub open spec fn refusal_message(e: PathValidationError) -> Seq<char> {
    match e {
        PathValidationError::NullByte(raw) => "Path contains null byte: "@ + str_debug(raw@),
        PathValidationError::ControlCharacters(raw) => "Path contains control characters: "@ + str_debug(raw@),
        PathValidationError::OutsideAllowedRoots(resolved, allowed) => "Path "@ + path_debug(resolved@)
            + " is outside allowed roots: "@ + path_list_debug(allowed@),
        PathValidationError::IoError(msg) => "IO error: "@ + msg@,
    }
}

impl PathValidationError {
    /// The message of the refusal.
    pub fn message(&self) -> (r: String)
        ensures
            r@ == refusal_message(*self),
    {
        match self {
            PathValidationError::NullByte(raw) => {
                let mut m = chars_of("Path contains null byte: ");
                append_str(&mut m, debug_str(raw.as_str()).as_str());
                string_of(&m)
            },
            PathValidationError::ControlCharacters(raw) => {
                let mut m = chars_of("Path contains control characters: ");
                append_str(&mut m, debug_str(raw.as_str()).as_str());
                string_of(&m)
            },
            PathValidationError::OutsideAllowedRoots(resolved, allowed) => {
                let mut items: Vec<Vec<char>> = Vec::new();
                let mut i: usize = 0;
                while i < allowed.len()
                    invariant
                        i <= allowed@.len(),
                        crate::text::seqs(items@) == allowed@.take(i as int).map_values(|p: String| path_debug(p@)),
                    decreases allowed.len() - i,
                {
                    let ghost before = crate::text::seqs(items@);
                    items.push(chars_of(debug_path(allowed[i].as_str()).as_str()));
                    assert(crate::text::seqs(items@) =~= before.push(path_debug(allowed@[i as int]@)));
                    assert(crate::text::seqs(items@) =~= allowed@.take(i + 1).map_values(|p: String| path_debug(p@)));
                    i = i + 1;
                }
                assert(allowed@.take(i as int) =~= allowed@);
                let mut m = chars_of("Path ");
                append_str(&mut m, debug_path(resolved.as_str()).as_str());
                append_str(&mut m, " is outside allowed roots: ");
                append_str(&mut m, "[");
                append(&mut m, &crate::text::join_chars(&items, &chars_of(", ")));
                append_str(&mut m, "]");
                assert(m@ =~= refusal_message(*self));
                string_of(&m)
            },
            PathValidationError::IoError(msg) => {
                let mut m = chars_of("IO error: ");
                append_str(&mut m, msg.as_str());
                string_of(&m)
            },
        }
    }
}

/// What `PathBuf::pop` leaves: the parent, or the path itself when it has none.
pub open spec fn popped(p: Seq<char>) -> Seq<char> {
    match path_parent(p) {
        Some(q) => q,
        None => p,
    }
}

/// The path reached from `base` by the components `comps` in order: `.` is skipped, `..`
/// goes up one level, any other component is appended.
pub open spec fn walk_components(base: Seq<char>, comps: Seq<Seq<char>>) -> Seq<char>
    decreases comps.len(),
{
    if comps.len() == 0 {
        base
    } else {
        let prior = walk_components(base, comps.drop_last());
        let c = comps.last();
        if c == "."@ {
            prior
        } else if c == ".."@ {
            popped(prior)
        } else {
            path_joined(prior, c)
        }
    }
}

/// Completes the resolution of a path that does not exist yet: from the resolved form of
/// its deepest existing ancestor, the missing components are applied in order.
pub fn resolve_components(base: &str, components: &Vec<String>) -> (r: String)
    ensures
        r@ == walk_components(base@, components@.map_values(|c: String| c@)),
{
    let ghost cs = components@.map_values(|c: String| c@);
    let mut cur = base.to_owned();
    let mut i: usize = 0;
    while i < components.len()
        invariant
            i <= components@.len(),
            cs == components@.map_values(|c: String| c@),
            cur@ == walk_components(base@, cs.take(i as int)),
        decreases components.len() - i,
    {
        assert(cs.take(i + 1).drop_last() =~= cs.take(i as int));
        let c = chars_of(components[i].as_str());
        if crate::text::eq_str(&c, ".") {
        } else if crate::text::eq_str(&c, "..") {
            cur = match parent(cur.as_str()) {
                Some(q) => q,
                None => cur,
            };
        } else {
            cur = join_path(cur.as_str(), components[i].as_str());
        }
        i = i + 1;
    }
    assert(cs.take(components@.len() as int) =~= cs);
    cur
}

} // verus!
