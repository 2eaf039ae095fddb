//! The ordered set of input files handed to a build run.

use vstd::prelude::*;

verus! {

/// The input files for one compilation run: an ordered list of
/// (logical path, content) pairs. Logical paths are forward-slash
/// separated and relative; whether they stay inside the workspace is
/// checked at staging time, not here. A path added twice stays listed
/// twice, and staging lets the later entry overwrite the earlier one
/// (last write wins), matching filesystem write order.
#[derive(Debug, PartialEq)]
pub struct LatexInput {
    pub input: Vec<(String, Vec<u8>)>,
}

impl LatexInput {
    /// The entries as mathematical pairs of character and byte
    /// sequences, in order.
    pub open spec fn entries(&self) -> Seq<(Seq<char>, Seq<u8>)> {
        self.input.deep_view()
    }

    /// An empty input set.
    pub fn new() -> (r: LatexInput)
        ensures
            r.entries() =~= Seq::<(Seq<char>, Seq<u8>)>::empty(),
    {
        LatexInput { input: vec![] }
    }

    /// Appends a single named buffer.
    pub fn add(&mut self, name: &str, buf: Vec<u8>)
        ensures
            final(self).entries() =~= old(self).entries().push((name@, buf@)),
    {
        let s = String::from_str(name);
        let ghost gbuf = buf@;
        self.input.push((s, buf));
        proof {
            let a = old(self).entries();
            let bdv = self.input.deep_view();
            assert(bdv.len() == a.len() + 1);
            assert forall|i: int| 0 <= i < a.len() implies bdv[i] == a[i] by {
                assert(self.input@[i] == old(self).input@[i]);
            }
            assert(self.input@[a.len() as int].1.deep_view() =~= gbuf);
            assert(bdv[a.len() as int] == (name@, gbuf));
        }
    }

    /// The number of entries.
    pub fn len(&self) -> (r: usize)
        ensures
            r == self.entries().len(),
    {
        self.input.len()
    }
}

} // verus!
