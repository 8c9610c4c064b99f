//! Where the package manager keeps downloaded archives.

use vstd::prelude::*;
use vstd::string::*;

verus! {

/// Knows the layout of the local archive cache. It computes paths and never
/// touches the disk.
pub struct CacheManager {
    cache_dir: String,
}

impl View for CacheManager {
    type V = Seq<char>;

    /// The cache directory.
    closed spec fn view(&self) -> Seq<char> {
        self.cache_dir@
    }
}

/// The cache directory below the package manager's home directory.
pub open spec fn cache_dir_of(cargo_home: Seq<char>) -> Seq<char> {
    cargo_home + "/registry/cache"@
}

/// The path at which the archive of `crate_name` at `version` is kept below
/// `cache_dir`.
pub open spec fn cached_archive_path(
    cache_dir: Seq<char>,
    crate_name: Seq<char>,
    version: Seq<char>,
) -> Seq<char> {
    cache_dir + "/"@ + "github.com-1ecc6299db9ec823"@ + "/"@ + crate_name + "-"@ + version
        + ".crate"@
}

impl CacheManager {
    /// The cache below the package manager's home directory `cargo_home`.
    pub fn new(cargo_home: &str) -> (r: Self)
        ensures
            r@ == cache_dir_of(cargo_home@),
    {
        let mut cache_dir = cargo_home.to_owned();
        cache_dir.append("/registry/cache");
        CacheManager { cache_dir }
    }

    /// The cache directory.
    pub fn cache_dir(&self) -> (r: &str)
        ensures
            r@ == self@,
    {
        self.cache_dir.as_str()
    }

    /// The path at which the archive of `crate_name` at `version` is kept,
    /// whether or not it is there.
    pub fn expected_path(&self, crate_name: &str, version: &str) -> (path: String)
        ensures
            path@ == cached_archive_path(self@, crate_name@, version@),
    {
        let mut path = self.cache_dir.clone();
        path.append("/");
        path.append("github.com-1ecc6299db9ec823");
        path.append("/");
        path.append(crate_name);
        path.append("-");
        path.append(version);
        path.append(".crate");
        path
    }

    /// The cached archive of `crate_name` at `version`: its path where
    /// `present` says that a file exists at the expected path, and nothing
    /// where it does not.
    pub fn find_cached_crate(&self, crate_name: &str, version: &str, present: bool) -> (r: Option<
        String,
    >)
        ensures
            present ==> (r matches Some(path) && path@ == cached_archive_path(
                self@,
                crate_name@,
                version@,
            )),
            !present ==> r is None,
    {
        if present {
            Some(self.expected_path(crate_name, version))
        } else {
            None
        }
    }
}

} // verus!
