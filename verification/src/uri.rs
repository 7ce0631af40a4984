use vstd::prelude::*;

use crate::error::Error;

verus! {

/// Provides URIs under which array tests may create temporary storage.
/// Implementations own the storage (a directory on disk, a remote prefix)
/// and release it on `close`; this crate only states the shape of the
/// interface and supplies the URI arithmetic.
pub trait TestArrayUri: Sized {
    /// The base URI all paths are placed under.
    fn base_dir(&self) -> Result<String, Error>;

    /// A URI for the given path segments under the base.
    fn with_paths(&self, paths: &[&str]) -> Result<String, Error>;

    /// Releases the backing storage.
    fn close(self) -> Result<(), Error>;

    /// A URI for one path segment under the base.
    fn with_path(&self, path: &str) -> Result<String, Error> {
        self.with_paths(&[path])
    }
}

/// The path segments joined onto a base: each of the first `i` segments,
/// in order, preceded by a separator.
pub open spec fn joined_up_to(paths: Seq<&str>, i: int) -> Seq<char>
    decreases i,
{
    if i <= 0 {
        Seq::empty()
    } else {
        joined_up_to(paths, i - 1) + seq!['/'] + paths[i - 1]@
    }
}

/// Joins path segments under a base directory and prefixes the result with
/// the scheme for local files, yielding the URI that names that path.
pub fn uri_join(base: &str, paths: &[&str]) -> (r: String)
    ensures
        r@ == "file://"@ + base@ + joined_up_to(paths@, paths@.len() as int),
{
    let mut r = "file://".to_owned();
    r.append(base);
    let n = paths.len();
    let mut i: usize = 0;
    while i < n
        invariant
            i <= n,
            n == paths@.len(),
            r@ == "file://"@ + base@ + joined_up_to(paths@, i as int),
        decreases n - i,
    {
        r.append("/");
        r.append(paths[i]);
        proof {
            reveal_strlit("/");
            assert(r@ =~= "file://"@ + base@ + joined_up_to(paths@, i + 1 as int));
        }
        i = i + 1;
    }
    r
}

} // verus!
