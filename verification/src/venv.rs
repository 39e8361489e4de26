//! The search for the virtual environment that a file belongs to.
//!
//! The search walks from the file's directory towards the root and asks, for
//! each directory, whether it holds an environment. Asking is the caller's
//! part; which directory to ask about next, and when to stop, is decided
//! here.

use vstd::prelude::*;

verus! {

/// The path without its last component, as `Path::parent` of std gives it:
/// `None` for a root and for the empty path.
pub uninterp spec fn parent_path(path: Seq<char>) -> Option<Seq<char>>;

/// Whether `base` is a prefix of `path` by whole components, as
/// `Path::starts_with` of std decides it.
pub uninterp spec fn path_within(path: Seq<char>, base: Seq<char>) -> bool;

/// `base` extended by `name`, as `Path::join` of std gives it.
pub uninterp spec fn joined_path(base: Seq<char>, name: Seq<char>) -> Seq<char>;

/// `Path::parent` of std. It reads the path's text and nothing else, so its
/// result is given the name `parent_path`; nothing more is claimed of it.
#[verifier::external_body]
pub(crate) fn path_parent(path: &str) -> (parent: Option<String>)
    ensures
        match parent {
            Some(p) => parent_path(path@) == Some(p@),
            None => parent_path(path@) is None,
        },
{
    std::path::Path::new(path).parent().and_then(|p| p.to_str()).map(String::from)
}

/// `Path::starts_with` of std. It compares the two paths' texts and nothing
/// else, so its result is given the name `path_within`; nothing more is
/// claimed of it.
#[verifier::external_body]
pub(crate) fn path_starts_with(path: &str, base: &str) -> (inside: bool)
    ensures
        inside == path_within(path@, base@),
{
    std::path::Path::new(path).starts_with(base)
}

/// `Path::join` of std. It builds the new path from the two texts and
/// nothing else, so its result is given the name `joined_path`; nothing more
/// is claimed of it.
#[verifier::external_body]
pub(crate) fn path_join(base: &str, name: &str) -> (joined: String)
    ensures
        joined@ == joined_path(base@, name@),
{
    std::path::Path::new(base).join(name).to_string_lossy().into_owned()
}

/// One step of the search.
#[derive(Debug)]
pub enum VenvStep {
    /// Ask whether the file `marker` exists; if so, `venv` is the
    /// environment, else go on from `dir`.
    Probe { dir: String, venv: String, marker: String },
    /// The search is over: the environment, or none.
    Done(Option<String>),
}

/// What a step is.
pub ghost enum StepModel {
    Probe { dir: Seq<char>, venv: Seq<char>, marker: Seq<char> },
    Done(Option<Seq<char>>),
}

impl View for VenvStep {
    type V = StepModel;

    open spec fn view(&self) -> StepModel {
        match self {
            VenvStep::Probe { dir, venv, marker } => StepModel::Probe {
                dir: dir@,
                venv: venv@,
                marker: marker@,
            },
            VenvStep::Done(found) => StepModel::Done(
                match found {
                    Some(venv) => Some(venv@),
                    None => None,
                },
            ),
        }
    }
}

/// The environment that directory `dir` would hold: `<dir>/.venv`.
pub open spec fn venv_of(dir: Seq<char>) -> Seq<char> {
    joined_path(dir, ".venv"@)
}

/// The file that marks the environment of directory `dir`:
/// `<dir>/.venv/pyvenv.cfg`.
pub open spec fn marker_of(dir: Seq<char>) -> Seq<char> {
    joined_path(venv_of(dir), "pyvenv.cfg"@)
}

/// The step that the search takes at directory `dir`: past the root, where
/// there is no directory, it ends without a find; so it does at a directory
/// that does not lie within `boundary`; any other directory is probed for
/// its environment.
pub open spec fn probe_step(dir: Option<Seq<char>>, boundary: Option<Seq<char>>) -> StepModel {
    match dir {
        Some(d) => if match boundary {
            Some(b) => path_within(d, b),
            None => true,
        } {
            StepModel::Probe { dir: d, venv: venv_of(d), marker: marker_of(d) }
        } else {
            StepModel::Done(None)
        },
        None => StepModel::Done(None),
    }
}

/// The text of a directory that may be missing.
pub open spec fn dir_text(dir: Option<String>) -> Option<Seq<char>> {
    match dir {
        Some(d) => Some(d@),
        None => None,
    }
}

/// The text of a boundary that may be missing.
pub open spec fn boundary_text(boundary: Option<&str>) -> Option<Seq<char>> {
    match boundary {
        Some(b) => Some(b@),
        None => None,
    }
}

/// What to do about the directory `dir`, given whether it lies inside the
/// boundary and what its candidate environment and marker file are called:
/// outside the boundary, and past the root, the search ends without a find.
pub fn probe_decision(
    dir: Option<String>,
    inside: bool,
    venv: String,
    marker: String,
) -> (step: VenvStep)
    ensures
        match dir {
            Some(d) => if inside {
                step == (VenvStep::Probe { dir: d, venv, marker })
            } else {
                step == VenvStep::Done(None)
            },
            None => step == VenvStep::Done(None),
        },
{
    match dir {
        Some(d) => if inside {
            VenvStep::Probe { dir: d, venv, marker }
        } else {
            VenvStep::Done(None)
        },
        None => VenvStep::Done(None),
    }
}

/// What to do about the directory `dir`; see `probe_step`.
pub fn next_probe(dir: Option<String>, boundary: Option<&str>) -> (step: VenvStep)
    ensures
        step@ == probe_step(dir_text(dir), boundary_text(boundary)),
{
    match dir {
        Some(d) => {
            let inside: bool = match boundary {
                Some(b) => path_starts_with(d.as_str(), b),
                None => true,
            };
            let venv: String = path_join(d.as_str(), ".venv");
            let marker: String = path_join(venv.as_str(), "pyvenv.cfg");
            probe_decision(Some(d), inside, venv, marker)
        },
        None => VenvStep::Done(None),
    }
}

/// The first step of the search for the environment of `file_path`: the
/// search starts at the directory that holds the file, and stays within
/// `git_toplevel` where one is given.
pub fn find_venv(file_path: &str, git_toplevel: Option<&str>) -> (step: VenvStep)
    ensures
        step@ == probe_step(parent_path(file_path@), boundary_text(git_toplevel)),
{
    next_probe(path_parent(file_path), git_toplevel)
}

/// The step after a probe of `dir` was answered: a marker that exists ends
/// the search with `venv`; else the directory above is next.
pub fn after_probe(
    dir: &str,
    venv: String,
    exists: bool,
    git_toplevel: Option<&str>,
) -> (step: VenvStep)
    ensures
        exists ==> step == VenvStep::Done(Some(venv)),
        !exists ==> step@ == probe_step(parent_path(dir@), boundary_text(git_toplevel)),
{
    if exists {
        VenvStep::Done(Some(venv))
    } else {
        next_probe(path_parent(dir), git_toplevel)
    }
}

/// The environment to fall back on at start: the one at the repository's
/// root, where the root is known and holds one, else the one in the working
/// directory, else none.
pub fn find_fallback_venv(
    toplevel_venv: Option<String>,
    toplevel_has_marker: bool,
    cwd_venv: String,
    cwd_has_marker: bool,
) -> (found: Option<String>)
    ensures
        found == match toplevel_venv {
            Some(v) => if toplevel_has_marker {
                Some(v)
            } else if cwd_has_marker {
                Some(cwd_venv)
            } else {
                None
            },
            None => if cwd_has_marker {
                Some(cwd_venv)
            } else {
                None
            },
        },
{
    match toplevel_venv {
        Some(v) => if toplevel_has_marker {
            Some(v)
        } else if cwd_has_marker {
            Some(cwd_venv)
        } else {
            None
        },
        None => if cwd_has_marker {
            Some(cwd_venv)
        } else {
            None
        },
    }
}

/// The repository's root from the outcome of the source-control tool: its
/// output without surrounding white space where the tool succeeded, else
/// none. A tool that cannot be run is no error.
pub fn get_git_toplevel(succeeded: bool, trimmed_output: String) -> (root: Option<String>)
    ensures
        root == if succeeded {
            Some(trimmed_output)
        } else {
            None
        },
{
    if succeeded {
        Some(trimmed_output)
    } else {
        None
    }
}

/// The environment that directory `dir` would hold, and the file that marks
/// it: `<dir>/.venv` and `<dir>/.venv/pyvenv.cfg`.
pub fn venv_candidate(dir: &str) -> (candidate: (String, String))
    ensures
        candidate.0@ == venv_of(dir@),
        candidate.1@ == marker_of(dir@),
{
    let venv: String = path_join(dir, ".venv");
    let marker: String = path_join(venv.as_str(), "pyvenv.cfg");
    (venv, marker)
}

} // verus!
