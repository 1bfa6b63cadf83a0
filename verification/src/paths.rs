//! File-system locations as plain values: a base directory and the components
//! joined under it, in order (what `PathBuf::from(base).join(c1).join(c2)...` builds).

use vstd::prelude::*;

verus! {

/// The text of a location: its base and its components.
pub ghost struct PathView {
    pub base: Seq<char>,
    pub parts: Seq<Seq<char>>,
}

/// A location: `base` joined with each of `parts`, in order.
#[derive(Clone, Debug)]
pub struct LocalPath {
    pub base: String,
    pub parts: Vec<String>,
}

impl View for LocalPath {
    type V = PathView;

    open spec fn view(&self) -> PathView {
        PathView { base: self.base@, parts: self.parts@.map_values(|p: String| p@) }
    }
}

impl LocalPath {
    /// The location `base` itself.
    pub fn new(base: &str) -> (path: LocalPath)
        ensures
            path@ == (PathView { base: base@, parts: Seq::empty() }),
    {
        let path = LocalPath { base: String::from_str(base), parts: Vec::new() };
        assert(path@.parts =~= Seq::<Seq<char>>::empty());
        path
    }

    /// The location `part` under this one.
    pub fn join(self, part: &str) -> (path: LocalPath)
        ensures
            path@ == (PathView { base: self@.base, parts: self@.parts.push(part@) }),
    {
        let mut parts = self.parts;
        parts.push(String::from_str(part));
        let path = LocalPath { base: self.base, parts };
        assert(path@.parts =~= self@.parts.push(part@));
        path
    }
}

} // verus!
