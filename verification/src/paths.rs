//! Repository paths taken from request URLs.
//!
//! A repository is named by three plain components: server, organization
//! and repository (`git.door43.org/BurritoTruck/fr_psle`); local content
//! lives under `_local_/_local_/<name>`.
use vstd::prelude::*;
use crate::text::{str_eq, concat2, concat3, push_str};

verus! {

/// One component of a request path.
pub enum PathPart {
    /// A plain name.
    Normal(String),
    /// `.`
    CurDir,
    /// `..`
    ParentDir,
    /// The root, or a prefix such as a drive letter.
    Root,
}

/// The separator between path components in the paths the library builds.
pub open spec fn slash() -> Seq<char> {
    "/"@
}

/// The path separator.
pub fn os_slash_str() -> (r: &'static str)
    ensures
        r@ == slash(),
{
    "/"
}

pub open spec fn is_normal(p: PathPart) -> bool {
    p is Normal
}

/// A repository path: exactly three plain components.
pub open spec fn is_repo_path(parts: Seq<PathPart>) -> bool {
    parts.len() == 3 && forall|i: int| 0 <= i < parts.len() ==> is_normal(#[trigger] parts[i])
}

/// Whether a request path names a repository: exactly three plain
/// components, so that it cannot climb out of the repository directory.
pub fn check_path_components(parts: &Vec<PathPart>) -> (r: bool)
    ensures
        r == is_repo_path(parts@),
{
    if parts.len() != 3 {
        return false;
    }
    check_all_normal(parts)
}

/// Whether every component is a plain name.
pub fn check_all_normal(parts: &Vec<PathPart>) -> (r: bool)
    ensures
        r == forall|i: int| 0 <= i < parts@.len() ==> is_normal(#[trigger] parts@[i]),
{
    let mut i: usize = 0;
    while i < parts.len()
        invariant
            i <= parts@.len(),
            forall|k: int| 0 <= k < i ==> is_normal(#[trigger] parts@[k]),
        decreases parts@.len() - i,
    {
        match &parts[i] {
            PathPart::Normal(_) => {},
            _ => {
                return false;
            },
        }
        i += 1;
    }
    true
}

/// Whether a request path has at least `n` components, all plain names.
pub fn check_path_components1(parts: &Vec<PathPart>, n: usize) -> (r: bool)
    ensures
        r == (parts@.len() >= n && forall|i: int| 0 <= i < parts@.len() ==> is_normal(#[trigger] parts@[i])),
{
    if parts.len() < n {
        return false;
    }
    check_all_normal(parts)
}

/// The name of a plain component.
pub open spec fn part_name(p: PathPart) -> Seq<char> {
    match p {
        PathPart::Normal(s) => s@,
        _ => Seq::empty(),
    }
}

/// A path to local content: a repository path under `_local_/_local_`.
pub open spec fn is_local_repo_path(parts: Seq<PathPart>) -> bool {
    &&& is_repo_path(parts)
    &&& part_name(parts[0]) == "_local_"@
    &&& part_name(parts[1]) == "_local_"@
}

/// Whether a request path names local content.
pub fn check_local_path_components(parts: &Vec<PathPart>) -> (r: bool)
    ensures
        r == is_local_repo_path(parts@),
{
    if !check_path_components(parts) {
        return false;
    }
    let a = match &parts[0] {
        PathPart::Normal(s) => str_eq(s.as_str(), "_local_"),
        _ => false,
    };
    let b = match &parts[1] {
        PathPart::Normal(s) => str_eq(s.as_str(), "_local_"),
        _ => false,
    };
    a && b
}

/// The name of a plain component.
pub fn part_text(p: &PathPart) -> (r: &String)
    requires
        is_normal(*p),
    ensures
        r@ == part_name(*p),
{
    match p {
        PathPart::Normal(s) => s,
        _ => {
            assert(false);
            unreached()
        },
    }
}

/// The components joined by `/`, as the request path displays.
pub open spec fn joined(parts: Seq<PathPart>) -> Seq<char>
    decreases parts.len(),
{
    if parts.len() == 0 {
        Seq::empty()
    } else if parts.len() == 1 {
        part_name(parts[0])
    } else {
        joined(parts.drop_last()) + slash() + part_name(parts.last())
    }
}

/// The display form of a path of plain components.
pub fn path_display(parts: &Vec<PathPart>) -> (r: String)
    requires
        forall|i: int| 0 <= i < parts@.len() ==> is_normal(#[trigger] parts@[i]),
    ensures
        r@ == joined(parts@),
{
    let mut r = String::new();
    let mut i: usize = 0;
    while i < parts.len()
        invariant
            i <= parts@.len(),
            forall|k: int| 0 <= k < parts@.len() ==> is_normal(#[trigger] parts@[k]),
            r@ == joined(parts@.take(i as int)),
        decreases parts@.len() - i,
    {
        assert(parts@.take(i + 1).drop_last() =~= parts@.take(i as int));
        if i > 0 {
            push_str(&mut r, "/");
        }
        push_str(&mut r, part_text(&parts[i]).as_str());
        proof {
            if i == 0 {
                assert(r@ =~= joined(parts@.take(1)));
            }
        }
        i += 1;
    }
    assert(parts@.take(parts@.len() as int) =~= parts@);
    r
}

/// The full path of a repository under the repository directory.
pub fn repo_full_path(repo_dir: &str, parts: &Vec<PathPart>) -> (r: String)
    requires
        forall|i: int| 0 <= i < parts@.len() ==> is_normal(#[trigger] parts@[i]),
    ensures
        r@ == repo_dir@ + slash() + joined(parts@),
{
    let d = path_display(parts);
    concat3(repo_dir, "/", d.as_str())
}

/// The directory of a local content repository called `name`.
pub fn local_repo_path(repo_dir: &str, name: &str) -> (r: String)
    ensures
        r@ == repo_dir@ + "/_local_/_local_/"@ + name@,
{
    concat3(repo_dir, "/_local_/_local_/", name)
}

} // verus!
