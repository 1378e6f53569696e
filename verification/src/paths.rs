//! Paths as a base and the components that are joined to it.
use crate::text;
use vstd::prelude::*;
use vstd::string::*;

verus! {

/// A path: a base, and components that are joined to it one after the other.
#[derive(Debug)]
pub struct FilePath {
    pub base: String,
    pub parts: Vec<String>,
}

impl FilePath {
    /// Base and components of the path.
    pub open spec fn view(&self) -> (Seq<char>, Seq<Seq<char>>) {
        (self.base@, text::texts(self.parts@))
    }

    /// The path of the base alone.
    pub fn of(base: &str) -> (res: FilePath)
        ensures
            res@ == (base@, Seq::<Seq<char>>::empty()),
    {
        let res = FilePath { base: base.to_string(), parts: Vec::new() };
        assert(text::texts(res.parts@) =~= Seq::<Seq<char>>::empty());
        res
    }

    /// The path with another component at its end.
    pub fn join(self, part: &str) -> (res: FilePath)
        ensures
            res@ == (self@.0, self@.1.push(part@)),
    {
        let ghost before = self.parts@;
        let mut path = self;
        path.parts.push(part.to_string());
        assert(text::texts(path.parts@) =~= text::texts(before).push(part@));
        path
    }
}

} // verus!
