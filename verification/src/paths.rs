//! The directories that the application keeps its data in.

use vstd::prelude::*;
use vstd::string::*;

verus! {

/// The path that `std::path::Path::join` gives for `base` and `child`, by
/// the rules of the platform that the library is built for.
pub uninterp spec fn joined_path(base: Seq<char>, child: Seq<char>) -> Seq<char>;

/// Calls `std::path::Path::join` on the two strings taken as paths, and
/// hands the path back as a string. Both paths come from strings, so nothing
/// is lost on the way back. The contract only gives the result its name.
#[verifier::external_body]
fn join_path(base: &str, child: &str) -> (path: String)
    ensures
        path@ == joined_path(base@, child@),
{
    std::path::Path::new(base).join(child).to_string_lossy().into_owned()
}

/// The last component of `path` that `std::path::Path::file_name` gives, by
/// the rules of the platform that the library is built for.
pub uninterp spec fn path_file_name(path: Seq<char>) -> Option<Seq<char>>;

/// Calls `std::path::Path::file_name` on the string taken as a path, and
/// hands the name back as a string, or `None` where the path has none. The
/// path comes from a string, so nothing is lost on the way back. The
/// contract only gives the result its name.
#[verifier::external_body]
pub(crate) fn file_name(path: &str) -> (name: Option<String>)
    ensures
        name.deep_view() == path_file_name(path@),
{
    std::path::Path::new(path).file_name().map(|name| name.to_string_lossy().into_owned())
}

/// Where the application keeps what belongs to one user.
pub struct AppPaths {
    /// The directory of the application's data.
    pub app_data_dir: String,
}

impl AppPaths {
    /// The paths below a data directory.
    pub fn new(app_data_dir: String) -> (paths: Self)
        ensures
            paths.app_data_dir@ == app_data_dir@,
    {
        AppPaths { app_data_dir }
    }

    /// The directory of the database: `Data` below the data directory.
    pub fn data_dir(&self) -> (dir: String)
        ensures
            dir@ == joined_path(self.app_data_dir@, "Data"@),
    {
        join_path(self.app_data_dir.as_str(), "Data")
    }

    /// The directory of the logs: `Logs` below the data directory.
    pub fn logs_dir(&self) -> (dir: String)
        ensures
            dir@ == joined_path(self.app_data_dir@, "Logs"@),
    {
        join_path(self.app_data_dir.as_str(), "Logs")
    }

    /// The directory that holds the managed copies of imported processes:
    /// `processes` below the data directory.
    pub fn processes_dir(&self) -> (dir: String)
        ensures
            dir@ == joined_path(self.app_data_dir@, "processes"@),
    {
        join_path(self.app_data_dir.as_str(), "processes")
    }
}

/// The directory of the managed copy of an imported process: the one named
/// by its identifier below the directory of managed copies.
pub open spec fn managed_copy_path(processes_dir: Seq<char>, id: Seq<char>) -> Seq<char> {
    joined_path(processes_dir, id)
}

/// Computes [`managed_copy_path`].
pub fn managed_copy_dir(processes_dir: &str, id: &str) -> (dir: String)
    ensures
        dir@ == managed_copy_path(processes_dir@, id@),
{
    join_path(processes_dir, id)
}

} // verus!
