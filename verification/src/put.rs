//! Writing a file: the sink's state.

use vstd::prelude::*;

verus! {

/// A sink that writes the file `dst`.
#[derive(Debug)]
pub struct Put {
    pub dst: String,
}

impl Put {
    pub fn new(dst: String) -> (r: Put)
        ensures
            r.dst == dst,
    {
        Put { dst }
    }
}

/// A sink that writes the file `dst`.
pub fn put_sink(dst: String) -> (r: Put)
    ensures
        r.dst == dst,
{
    Put::new(dst)
}

} // verus!
