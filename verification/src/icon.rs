//! A cache for the icons of applications.

use vstd::prelude::*;
use std::path::PathBuf;
use vstd::string::StringExecFns;
use crate::text::{pieces, split, string_texts};
use crate::text_map::TextMap;

verus! {

/// A path in the file system, as the standard library holds it.
#[verifier::external_type_specification]
#[verifier::external_body]
pub struct ExPathBuf(PathBuf);

/// Calls `clone` of the standard library on a path. Trusted: the clone is
/// the same path.
#[verifier::external_body]
fn clone_path(path: &PathBuf) -> (copy: PathBuf)
    ensures
        copy == *path,
{
    path.clone()
}

/// A cache for taskbar icons: the path of the icon of each application that
/// has been looked up and found.
#[derive(Debug)]
pub struct Cache {
    paths: TextMap<PathBuf>,
}

impl View for Cache {
    type V = Map<Seq<char>, PathBuf>;

    closed spec fn view(&self) -> Map<Seq<char>, PathBuf> {
        self.paths@
    }
}

impl Cache {
    /// The cache holds each application once.
    #[verifier::type_invariant]
    spec fn inv(self) -> bool {
        self.paths.wf()
    }

    /// An empty cache.
    pub fn new() -> (cache: Self)
        ensures
            cache@ == Map::<Seq<char>, PathBuf>::empty(),
    {
        Cache { paths: TextMap::new() }
    }

    /// Takes the paths out, to work on them, and leaves none.
    fn take(&mut self) -> (paths: TextMap<PathBuf>)
        ensures
            paths.wf(),
            paths@ == old(self)@,
    {
        proof {
            use_type_invariant(&*self);
        }
        let mut paths = TextMap::new();
        core::mem::swap(&mut self.paths, &mut paths);
        paths
    }

    /// Look up an icon for the given application ID.
    ///
    /// An icon that the cache holds is answered from it. Else `find` is
    /// asked, and what it finds is kept for the next time; that it found
    /// nothing is not kept.
    pub fn lookup<F: FnOnce(&str) -> Option<PathBuf>>(&mut self, id: &str, find: F) -> (path: Option<
        PathBuf,
    >)
        requires
            find.requires((id,)),
        ensures
            old(self)@.contains_key(id@) ==> path == Some(old(self)@[id@]) && final(self)@ == old(
                self,
            )@,
            !old(self)@.contains_key(id@) ==> find.ensures((id,), path) && final(self)@ == match path {
                Some(found) => old(self)@.insert(id@, found),
                None => old(self)@,
            },
    {
        let mut paths = self.take();
        let known = match paths.get(id) {
            Some(path) => Some(clone_path(path)),
            None => None,
        };
        let path = match known {
            Some(path) => Some(path),
            None => match find(id) {
                Some(found) => {
                    let copy = clone_path(&found);
                    paths.insert(String::from_str(id), found);
                    Some(copy)
                },
                None => None,
            },
        };
        self.paths = paths;
        path
    }
}

impl Default for Cache {
    fn default() -> (cache: Self)
        ensures
            cache@ == Map::<Seq<char>, PathBuf>::empty(),
    {
        Cache::new()
    }
}

/// The directory of shared data that is searched where the environment
/// names none.
pub const DEFAULT_DATA_DIR: &'static str = "/usr/share";

/// The directory of locally installed shared data that is searched where
/// the environment names none.
pub const DEFAULT_LOCAL_DATA_DIR: &'static str = "/usr/local/share";

/// The directories of shared data to search for desktop files, given the
/// value of `XDG_DATA_DIRS` where it is set: the directories that the value
/// lists, divided by `:`; without a value the two customary ones.
pub open spec fn shared_data_dirs(xdg_data_dirs: Option<Seq<char>>) -> Seq<Seq<char>> {
    match xdg_data_dirs {
        Some(dirs) => pieces(dirs, ':'),
        None => seq![DEFAULT_DATA_DIR@, DEFAULT_LOCAL_DATA_DIR@],
    }
}

/// The directories of shared data to search for desktop files.
pub fn data_dirs(xdg_data_dirs: Option<&str>) -> (dirs: Vec<String>)
    ensures
        string_texts(dirs@) == shared_data_dirs(
            match xdg_data_dirs {
                Some(value) => Some(value@),
                None => None,
            },
        ),
{
    match xdg_data_dirs {
        Some(value) => split(value, ':'),
        None => {
            let mut dirs: Vec<String> = Vec::new();
            dirs.push(String::from_str(DEFAULT_DATA_DIR));
            dirs.push(String::from_str(DEFAULT_LOCAL_DATA_DIR));
            assert(string_texts(dirs@) =~= seq![DEFAULT_DATA_DIR@, DEFAULT_LOCAL_DATA_DIR@]);
            dirs
        },
    }
}

/// The names, below a directory of shared data, under which the desktop
/// file of the application `id` is looked for, in the order of the search.
pub open spec fn desktop_file_candidates(id: Seq<char>) -> Seq<Seq<char>> {
    seq![
        "applications/"@ + id,
        "applications/"@ + id + ".desktop"@,
        "applications/kde/"@ + id,
        "applications/kde/"@ + id + ".desktop"@,
        "applications/org.kde."@ + id,
        "applications/org.kde."@ + id + ".desktop"@,
    ]
}

/// One candidate: `prefix`, then the application, then `suffix`.
fn candidate(prefix: &str, id: &str, suffix: &str) -> (name: String)
    ensures
        name@ == prefix@ + id@ + suffix@,
{
    String::from_str(prefix).concat(id).concat(suffix)
}

/// The names, below a directory of shared data, under which the desktop
/// file of the application `id` is looked for.
pub fn desktop_file_names(id: &str) -> (names: Vec<String>)
    ensures
        string_texts(names@) == desktop_file_candidates(id@),
{
    let mut names: Vec<String> = Vec::new();
    names.push(candidate("applications/", id, ""));
    names.push(candidate("applications/", id, ".desktop"));
    names.push(candidate("applications/kde/", id, ""));
    names.push(candidate("applications/kde/", id, ".desktop"));
    names.push(candidate("applications/org.kde.", id, ""));
    names.push(candidate("applications/org.kde.", id, ".desktop"));
    proof {
        reveal_strlit("");
        assert(""@ =~= Seq::<char>::empty());
        assert("applications/"@ + id@ + ""@ =~= "applications/"@ + id@);
        assert("applications/kde/"@ + id@ + ""@ =~= "applications/kde/"@ + id@);
        assert("applications/org.kde."@ + id@ + ""@ =~= "applications/org.kde."@ + id@);
        assert(string_texts(names@) =~= desktop_file_candidates(id@));
    }
    names
}

} // verus!
