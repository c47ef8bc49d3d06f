//! Paths are held as text; what the standard library's `Path` computes of them is named here
//! and obtained by calling it.
use std::path::{Path, PathBuf};
use vstd::prelude::*;

verus! {

/// What `Path::join` gives for `base` joined with `tail`.
pub uninterp spec fn path_joined(base: Seq<char>, tail: Seq<char>) -> Seq<char>;

/// What `Path::strip_prefix` gives for `path` without the leading `base` (`None` where `base`
/// is not a prefix of `path`).
pub uninterp spec fn path_relative_to(path: Seq<char>, base: Seq<char>) -> Option<Seq<char>>;

/// What `PathBuf::set_extension` makes of `path` with the extension `ext`.
pub uninterp spec fn path_with_extension(path: Seq<char>, ext: Seq<char>) -> Seq<char>;

/// What `Path::file_stem` gives for `path`, as text.
pub uninterp spec fn path_file_stem(path: Seq<char>) -> Option<Seq<char>>;

/// What `Path::parent` gives for `path`.
pub uninterp spec fn path_parent(path: Seq<char>) -> Option<Seq<char>>;

/// What `Path::extension` gives for `path`, as text.
pub uninterp spec fn path_extension(path: Seq<char>) -> Option<Seq<char>>;

/// `Path::join`. Claimed: the result is the named `path_joined`, and an absolute `tail`
/// (one that starts with `/`) replaces `base`, as the documentation says.
#[verifier::external_body]
pub(crate) fn join_path(base: &str, tail: &str) -> (r: String)
    ensures
        r@ == path_joined(base@, tail@),
        tail@.len() > 0 && tail@[0] == '/' ==> r@ == tail@,
{
    Path::new(base).join(tail).to_string_lossy().into_owned()
}

/// `Path::strip_prefix`. Claimed: the result is the named `path_relative_to`.
#[verifier::external_body]
pub(crate) fn strip_path_prefix(path: &str, base: &str) -> (r: Option<String>)
    ensures
        match r {
            Some(rel) => path_relative_to(path@, base@) == Some(rel@),
            None => path_relative_to(path@, base@) is None,
        },
{
    Path::new(path).strip_prefix(base).ok().map(|rel| rel.to_string_lossy().into_owned())
}

/// `PathBuf::set_extension`. It panics where the extension holds a path separator, so such
/// extensions are left out. Claimed: the result is the named `path_with_extension`.
#[verifier::external_body]
pub(crate) fn set_path_extension(path: &str, ext: &str) -> (r: String)
    requires
        forall|i: int| 0 <= i < ext@.len() ==> ext@[i] != '/',
    ensures
        r@ == path_with_extension(path@, ext@),
{
    let mut buf = PathBuf::from(path);
    buf.set_extension(ext);
    buf.to_string_lossy().into_owned()
}

/// `Path::file_stem`, kept where it is valid text. Claimed: the result is the named
/// `path_file_stem`.
#[verifier::external_body]
pub(crate) fn file_stem_of(path: &str) -> (r: Option<String>)
    ensures
        match r {
            Some(stem) => path_file_stem(path@) == Some(stem@),
            None => path_file_stem(path@) is None,
        },
{
    Path::new(path).file_stem().and_then(|stem| stem.to_str()).map(|stem| stem.to_string())
}

/// `Path::parent`. Claimed: the result is the named `path_parent`.
#[verifier::external_body]
pub(crate) fn parent_of(path: &str) -> (r: Option<String>)
    ensures
        match r {
            Some(dir) => path_parent(path@) == Some(dir@),
            None => path_parent(path@) is None,
        },
{
    Path::new(path).parent().map(|dir| dir.to_string_lossy().into_owned())
}

/// `Path::extension`. Claimed: the result is the named `path_extension`.
#[verifier::external_body]
pub(crate) fn extension_of(path: &str) -> (r: Option<String>)
    ensures
        match r {
            Some(ext) => path_extension(path@) == Some(ext@),
            None => path_extension(path@) is None,
        },
{
    Path::new(path).extension().map(|ext| ext.to_string_lossy().into_owned())
}

/// What the disk answered about a path: the path that was asked about, and the answer.
/// Only the disk queries below make one, so holding one shows what was asked.
pub struct DiskAnswer {
    path: String,
    holds: bool,
}

impl DiskAnswer {
    /// The path that was asked about.
    pub closed spec fn asked(self) -> Seq<char> {
        self.path@
    }

    /// The disk's answer.
    pub closed spec fn answer(self) -> bool {
        self.holds
    }

    /// The disk's answer.
    pub fn holds(&self) -> (b: bool)
        ensures
            b == self.answer(),
    {
        self.holds
    }
}

/// `Path::exists`: whether something is on disk at `path`. The answer depends on the disk,
/// so nothing is claimed of it; claimed: the answer comes with the path that was asked about.
#[verifier::external_body]
pub(crate) fn path_exists(path: &str) -> (answer: DiskAnswer)
    ensures
        answer.asked() == path@,
{
    DiskAnswer { path: path.to_string(), holds: Path::new(path).exists() }
}

/// `Path::is_dir`: whether a directory is on disk at `path`. The answer depends on the disk,
/// so nothing is claimed of it; claimed: the answer comes with the path that was asked about.
#[verifier::external_body]
pub(crate) fn path_is_dir(path: &str) -> (answer: DiskAnswer)
    ensures
        answer.asked() == path@,
{
    DiskAnswer { path: path.to_string(), holds: Path::new(path).is_dir() }
}

} // verus!
