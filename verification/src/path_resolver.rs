//! Where the application keeps its data, and how stored paths map to it.
//!
//! Paths are kept as text. A stored path is relative and begins with the
//! name of the environment it was written in, `dev-data` or `app-data`,
//! followed by a slash.

use vstd::prelude::*;
use vstd::string::StringExecFns;
use crate::text::{begins_at, chars_of, has_prefix, string_between};

verus! {

/// The text of the path that `std::path::Path::join` makes of `base` and
/// `rel` on the platform that the library is built for.
pub uninterp spec fn joined_path(base: Seq<char>, rel: Seq<char>) -> Seq<char>;

/// The text of what `std::path::Path::strip_prefix` leaves of `path` once
/// `base` is taken off its front, or `None` where `path` does not lie below
/// `base`.
pub uninterp spec fn path_below(path: Seq<char>, base: Seq<char>) -> Option<Seq<char>>;

/// The text of the final component of `path` as `std::path::Path::file_name`
/// gives it, or `None` where the path has none.
pub uninterp spec fn path_file_name(path: Seq<char>) -> Option<Seq<char>>;

/// Calls `std::path::Path::join` on `base` and `rel`. Taken on trust: the
/// result depends on the two texts alone, so that it can be named; nothing
/// more is claimed of it.
#[verifier::external_body]
pub(crate) fn join_path(base: &str, rel: &str) -> (joined: String)
    ensures
        joined@ == joined_path(base@, rel@),
{
    std::path::Path::new(base).join(rel).to_string_lossy().into_owned()
}

/// Calls `std::path::Path::strip_prefix` on `path` with `base`. Taken on
/// trust: whether `path` lies below `base`, and what is left of it, depend
/// on the two texts alone; nothing more is claimed.
#[verifier::external_body]
fn strip_path_prefix(path: &str, base: &str) -> (rest: Option<String>)
    ensures
        rest is Some <==> path_below(path@, base@) is Some,
        rest is Some ==> rest->Some_0@ == path_below(path@, base@)->Some_0,
{
    match std::path::Path::new(path).strip_prefix(base) {
        Ok(rest) => Some(rest.to_string_lossy().into_owned()),
        Err(_) => None,
    }
}

/// Calls `std::path::Path::file_name` on `path`. Taken on trust: whether
/// the path has a final component, and which, depend on the text alone;
/// nothing more is claimed.
#[verifier::external_body]
fn file_name_of(path: &str) -> (name: Option<String>)
    ensures
        name is Some <==> path_file_name(path@) is Some,
        name is Some ==> name->Some_0@ == path_file_name(path@)->Some_0,
{
    match std::path::Path::new(path).file_name() {
        Some(name) => Some(name.to_string_lossy().into_owned()),
        None => None,
    }
}

/// Name of the development environment in stored paths.
pub open spec fn development_prefix() -> Seq<char> {
    "dev-data"@
}

/// Name of the production environment in stored paths.
pub open spec fn production_prefix() -> Seq<char> {
    "app-data"@
}

/// A stored path without the environment it was written in: what follows
/// `dev-data/` or `app-data/`, or the whole path where it begins with
/// neither.
pub open spec fn without_environment(stored: Seq<char>) -> Seq<char> {
    if has_prefix(stored, "dev-data/"@) {
        stored.skip("dev-data/"@.len() as int)
    } else if has_prefix(stored, "app-data/"@) {
        stored.skip("app-data/"@.len() as int)
    } else {
        stored
    }
}

/// The stored form of a path for an environment named `prefix`, from what
/// is left of the path below the base directory and from its file name: the
/// environment and the path below the base; for a path that does not lie
/// below the base, the environment, `unknown` and the file's name, or
/// `unknown` once more where it has none.
pub open spec fn stored_as(prefix: Seq<char>, below: Option<Seq<char>>, file_name: Option<Seq<char>>) -> Seq<
    char,
> {
    match below {
        Some(rest) => prefix + "/"@ + rest,
        None => prefix + "/unknown/"@ + match file_name {
            Some(name) => name,
            None => "unknown"@,
        },
    }
}

/// The stored form of a path, for an environment named `prefix` and the
/// base directory `base`.
pub open spec fn stored_form(prefix: Seq<char>, base: Seq<char>, path: Seq<char>) -> Seq<char> {
    stored_as(prefix, path_below(path, base), path_file_name(path))
}

/// The value of an optional text.
pub open spec fn text_of(text: Option<String>) -> Option<Seq<char>> {
    match text {
        Some(t) => Some(t@),
        None => None,
    }
}

/// The stored form of a path for an environment named `prefix`, from what
/// is left of the path below the base directory and from its file name.
pub fn stored_path(prefix: &str, below: Option<String>, file_name: Option<String>) -> (stored: String)
    ensures
        stored@ == stored_as(prefix@, text_of(below), text_of(file_name)),
{
    let mut stored = String::from_str(prefix);
    match below {
        Some(rest) => {
            stored.append("/");
            stored.append(rest.as_str());
        },
        None => {
            stored.append("/unknown/");
            match file_name {
                Some(name) => stored.append(name.as_str()),
                None => stored.append("unknown"),
            }
        },
    }
    stored
}

/// Resolves the application's data paths.
#[derive(Debug, Clone)]
pub struct PathResolver {
    app_data_dir: String,
    development: bool,
}

impl PathResolver {
    /// The base directory.
    pub closed spec fn base(self) -> Seq<char> {
        self.app_data_dir@
    }

    /// Whether paths are stored for the development environment.
    pub closed spec fn is_development(self) -> bool {
        self.development
    }

    /// Name of this resolver's environment in stored paths.
    pub open spec fn environment(self) -> Seq<char> {
        if self.is_development() {
            development_prefix()
        } else {
            production_prefix()
        }
    }

    /// A resolver for data kept under `app_data_dir`.
    pub fn with_base(app_data_dir: String, development: bool) -> (r: PathResolver)
        ensures
            r.base() == app_data_dir@,
            r.is_development() == development,
    {
        PathResolver { app_data_dir, development }
    }

    /// The base directory of the application's data.
    pub fn get_app_data_dir(&self) -> (dir: &String)
        ensures
            dir@ == self.base(),
    {
        &self.app_data_dir
    }

    /// The directory of the recordings.
    pub fn get_recordings_dir(&self) -> (dir: String)
        ensures
            dir@ == joined_path(self.base(), "recordings"@),
    {
        join_path(self.app_data_dir.as_str(), "recordings")
    }

    /// The directory of the images.
    pub fn get_images_dir(&self) -> (dir: String)
        ensures
            dir@ == joined_path(self.base(), "images"@),
    {
        join_path(self.app_data_dir.as_str(), "images")
    }

    /// The path of the database file.
    pub fn get_database_path(&self) -> (path: String)
        ensures
            path@ == joined_path(self.base(), "database.db"@),
    {
        join_path(self.app_data_dir.as_str(), "database.db")
    }

    /// The place of a stored path under the base directory. The environment
    /// that the path was stored in does not matter: either name is taken
    /// off, and the rest is joined to this resolver's base.
    pub fn resolve_relative_path(&self, relative_path: &str) -> (path: String)
        ensures
            path@ == joined_path(self.base(), without_environment(relative_path@)),
    {
        let chars = chars_of(relative_path);
        let development = chars_of("dev-data/");
        let production = chars_of("app-data/");
        proof {
            assert(chars@.skip(0) =~= chars@);
        }
        if begins_at(&chars, 0, &development) {
            let rest = string_between(&chars, development.len(), chars.len());
            assert(rest@ =~= relative_path@.skip("dev-data/"@.len() as int));
            join_path(self.app_data_dir.as_str(), rest.as_str())
        } else if begins_at(&chars, 0, &production) {
            let rest = string_between(&chars, production.len(), chars.len());
            assert(rest@ =~= relative_path@.skip("app-data/"@.len() as int));
            join_path(self.app_data_dir.as_str(), rest.as_str())
        } else {
            join_path(self.app_data_dir.as_str(), relative_path)
        }
    }

    /// The form in which `path` is stored: relative, and beginning with the
    /// name of this resolver's environment.
    pub fn to_relative_path(&self, path: &str) -> (stored: String)
        ensures
            stored@ == stored_form(self.environment(), self.base(), path@),
    {
        let prefix = if self.development {
            "dev-data"
        } else {
            "app-data"
        };
        let below = strip_path_prefix(path, self.app_data_dir.as_str());
        let file_name = file_name_of(path);
        stored_path(prefix, below, file_name)
    }
}

} // verus!
