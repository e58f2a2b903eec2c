//! The application's installation root and the paths derived from it.

use vstd::prelude::*;

verus! {

/// The application's installation root directory.
pub struct AppRoot {
    root: String,
}

impl AppRoot {
    /// The root path.
    pub closed spec fn root_path(&self) -> Seq<char> {
        self.root@
    }

    /// Wrap a resolved installation root path.
    pub fn new(root: String) -> (r: Self)
        ensures
            r.root_path() == root@,
    {
        AppRoot { root }
    }

    /// The directory the bundled images live in.
    pub fn image_path(&self) -> (r: String)
        ensures
            r@ == self.root_path() + "\\Images"@,
    {
        let mut r = self.root.clone();
        r.append("\\Images");
        r
    }
}

} // verus!
