//! Path validation for untrusted requests.
//!
//! A client hands the daemon an arbitrary string as an image path. The
//! checks proceed in a fixed order: cheap syntactic rejections first (empty
//! path, the stdin sentinel, an oversized path), then canonicalization (a
//! filesystem step the caller performs between `precheck_image_path` and
//! `accept_canonical`), a defensive re-check for parent-directory segments,
//! and finally a file-type check on the canonical result. Symlinks are
//! deliberately permitted and fully resolved: the decision is made on the
//! final canonical target, not on the input spelling.

use vstd::prelude::*;
use vstd::utf8::encode_utf8;
use crate::wire::{str_eq, u64_string, spec_u64_chars};

verus! {

/// Maximum accepted path length in bytes, a guard against
/// denial-of-service through pathological inputs, checked before any
/// filesystem call.
pub const MAX_PATH_LENGTH: usize = 4096;

/// Why a path was rejected.
#[derive(Debug)]
pub enum SecurityError {
    /// The path does not name an existing file.
    FileNotFound(String),
    /// The canonical form still contained a parent-directory segment.
    PathTraversal(String),
    /// The path is empty or too long.
    InvalidPath(String),
    /// The filesystem failed while resolving or inspecting the path.
    Io(String),
    /// The canonical path names something other than a regular file.
    NotAFile(String),
}

impl SecurityError {
    /// A human-readable description, as an error report to the client.
    pub fn message(&self) -> (r: String)
        ensures
            match self {
                SecurityError::FileNotFound(p) => r@ == "File not found: "@ + p@,
                SecurityError::PathTraversal(p) => r@ == "Path traversal detected: "@ + p@,
                SecurityError::InvalidPath(m) => r@ == "Invalid path: "@ + m@,
                SecurityError::Io(m) => r@ == "IO error: "@ + m@,
                SecurityError::NotAFile(p) => r@ == "Path is not a file: "@ + p@,
            },
    {
        match self {
            SecurityError::FileNotFound(p) => {
                let mut s = "File not found: ".to_owned();
                s.append(p.as_str());
                s
            },
            SecurityError::PathTraversal(p) => {
                let mut s = "Path traversal detected: ".to_owned();
                s.append(p.as_str());
                s
            },
            SecurityError::InvalidPath(m) => {
                let mut s = "Invalid path: ".to_owned();
                s.append(m.as_str());
                s
            },
            SecurityError::Io(m) => {
                let mut s = "IO error: ".to_owned();
                s.append(m.as_str());
                s
            },
            SecurityError::NotAFile(p) => {
                let mut s = "Path is not a file: ".to_owned();
                s.append(p.as_str());
                s
            },
        }
    }
}

/// What the syntactic checks decided.
#[derive(Debug, PartialEq, Eq, Structural)]
pub enum PathPrecheck {
    /// The path is the stdin sentinel `-`: accept it verbatim, no
    /// filesystem check applies.
    UseStdin,
    /// The path passed the syntactic checks and must now be resolved to
    /// canonical form by the filesystem.
    Canonicalize,
}

/// The syntactic checks on an image path, in order: an empty path and a
/// path over [`MAX_PATH_LENGTH`] bytes are invalid, the stdin sentinel
/// passes verbatim, anything else goes on to canonicalization.
pub fn precheck_image_path(path: &str) -> (r: Result<PathPrecheck, SecurityError>)
    ensures
        path@.len() == 0 ==> (r matches Err(SecurityError::InvalidPath(m)) && m@ == "empty path"@),
        path@ == "-"@ ==> r == Ok::<PathPrecheck, SecurityError>(PathPrecheck::UseStdin),
        path@.len() > 0 && path@ != "-"@ && (encode_utf8(path@).len() as usize) > MAX_PATH_LENGTH
            ==> (r matches Err(SecurityError::InvalidPath(_))),
        path@.len() > 0 && path@ != "-"@ && (encode_utf8(path@).len() as usize)
            <= MAX_PATH_LENGTH ==> r == Ok::<PathPrecheck, SecurityError>(
            PathPrecheck::Canonicalize,
        ),
{
    proof {
        reveal_strlit("-");
    }
    if path.is_empty() {
        return Err(SecurityError::InvalidPath("empty path".to_owned()));
    }
    if str_eq(path, "-") {
        return Ok(PathPrecheck::UseStdin);
    }
    if path.len() > MAX_PATH_LENGTH {
        let mut m = "path too long: ".to_owned();
        m.append(u64_string(path.len() as u64).as_str());
        m.append(" bytes (max 4096)");
        return Err(SecurityError::InvalidPath(m));
    }
    Ok(PathPrecheck::Canonicalize)
}

/// What the filesystem said when asked to canonicalize a path.
#[derive(Debug)]
pub enum CanonicalizeOutcome {
    /// The canonical, absolute form, symlinks fully resolved.
    Resolved(String),
    /// The path (or a component of it) does not exist.
    NotFound,
    /// Any other resolution failure, with its description.
    Failed(String),
}

/// A parent-directory segment: a path component that is exactly `..` —
/// two dots bounded by separators or by the ends of the path. Dots inside
/// a file name (as in `a..b.png`) are no such segment.
pub open spec fn parent_segment_at(b: Seq<u8>, i: int) -> bool {
    &&& 0 <= i
    &&& i + 2 <= b.len()
    &&& b[i] == 0x2e
    &&& b[i + 1] == 0x2e
    &&& (i == 0 || b[i - 1] == 0x2f)
    &&& (i + 2 == b.len() || b[i + 2] == 0x2f)
}

pub open spec fn has_parent_segment(b: Seq<u8>) -> bool {
    exists|i: int| #[trigger] parent_segment_at(b, i)
}

fn contains_parent_segment(s: &str) -> (r: bool)
    ensures
        r == has_parent_segment(encode_utf8(s@)),
{
    let b = s.as_bytes();
    let mut i: usize = 0;
    if b.len() < 2 {
        proof {
            assert forall|j: int| !parent_segment_at(b@, j) by {}
        }
        return false;
    }
    while i < b.len() - 1
        invariant
            b@ == encode_utf8(s@),
            b@.len() >= 2,
            i <= b@.len() - 1,
            forall|j: int| 0 <= j < i ==> !#[trigger] parent_segment_at(b@, j),
        decreases b@.len() - i,
    {
        if b[i] == 0x2e && b[i + 1] == 0x2e && (i == 0 || b[i - 1] == 0x2f) && (i + 2 == b.len()
            || b[i + 2] == 0x2f) {
            proof {
                assert(parent_segment_at(b@, i as int));
            }
            return true;
        }
        i = i + 1;
    }
    proof {
        assert forall|j: int| !parent_segment_at(b@, j) by {
            if 0 <= j < b@.len() - 1 {
                assert(!parent_segment_at(b@, j));
            }
        }
    }
    false
}

/// Judge the filesystem's canonicalization answer: nonexistence is
/// `FileNotFound` naming the original path, any other failure is an I/O
/// error, and a canonical result that still contains a `..` path
/// component is rejected as traversal.
pub fn accept_canonical(original: &str, outcome: CanonicalizeOutcome) -> (r: Result<
    String,
    SecurityError,
>)
    ensures
        outcome matches CanonicalizeOutcome::NotFound ==> (r matches Err(
            SecurityError::FileNotFound(p),
        ) && p@ == original@),
        (outcome matches CanonicalizeOutcome::Failed(m) ==> (r matches Err(SecurityError::Io(m2))
            && m2@ == m@)),
        (outcome matches CanonicalizeOutcome::Resolved(c) ==> {
            if has_parent_segment(encode_utf8(c@)) {
                r matches Err(SecurityError::PathTraversal(p)) && p@ == original@
            } else {
                r matches Ok(c2) && c2@ == c@
            }
        }),
{
    match outcome {
        CanonicalizeOutcome::NotFound => Err(SecurityError::FileNotFound(original.to_owned())),
        CanonicalizeOutcome::Failed(m) => Err(SecurityError::Io(m)),
        CanonicalizeOutcome::Resolved(c) => {
            if contains_parent_segment(c.as_str()) {
                Err(SecurityError::PathTraversal(original.to_owned()))
            } else {
                Ok(c)
            }
        },
    }
}

/// The file-type bits of a Unix mode word.
pub const MODE_TYPE_MASK: u32 = 0o170000;

/// The file-type bits of a regular file.
pub const MODE_REGULAR_FILE: u32 = 0o100000;

/// Whether a mode word names a regular file.
pub open spec fn spec_is_regular_mode(mode: u32) -> bool {
    mode & MODE_TYPE_MASK == MODE_REGULAR_FILE
}

/// Judge a stat answer for the canonical path: no answer is an I/O error,
/// a mode of anything but a regular file (a directory, a FIFO, a device)
/// is `NotAFile` naming the canonical path, and a regular file passes.
pub fn classify_file_mode(canonical: String, mode: Option<u32>) -> (r: Result<
    String,
    SecurityError,
>)
    ensures
        mode is None ==> (r matches Err(SecurityError::Io(m)) && m@
            == "cannot inspect canonical path"@),
        (mode matches Some(m) && !spec_is_regular_mode(m) ==> (r matches Err(
            SecurityError::NotAFile(p),
        ) && p@ == canonical@)),
        (mode matches Some(m) && spec_is_regular_mode(m) ==> (r matches Ok(c) && c@
            == canonical@)),
{
    match mode {
        None => Err(SecurityError::Io("cannot inspect canonical path".to_owned())),
        Some(m) => {
            if m & MODE_TYPE_MASK == MODE_REGULAR_FILE {
                Ok(canonical)
            } else {
                Err(SecurityError::NotAFile(canonical))
            }
        },
    }
}

/// Relies on `nix::sys::stat::stat`: returns the `st_mode` word of the
/// file the path names (symlinks followed), or nothing when the call
/// fails. What comes back depends on the filesystem, so nothing more is
/// promised of it.
#[verifier::external_body]
fn stat_mode(path: &str) -> (r: Option<u32>)
{
    match nix::sys::stat::stat(path) {
        Ok(st) => Some(st.st_mode as u32),
        Err(_) => None,
    }
}

/// The final check on a canonical path: it must name a regular file.
/// Whatever the filesystem answers, the result either carries the
/// canonical path through unchanged or rejects it as `NotAFile` or as an
/// I/O failure.
pub fn check_regular_file(canonical: String) -> (r: Result<String, SecurityError>)
    ensures
        r matches Ok(c) ==> c@ == canonical@,
        r matches Err(e) ==> (e is NotAFile || e is Io),
        match r {
            Err(SecurityError::NotAFile(p)) => p@ == canonical@,
            _ => true,
        },
{
    let mode = stat_mode(canonical.as_str());
    classify_file_mode(canonical, mode)
}

} // verus!
