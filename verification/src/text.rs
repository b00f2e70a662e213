//! Texts put together from parts.

use vstd::prelude::*;
use vstd::string::StringExecFns;

verus! {

/// `before`, then `middle`, then `after`.
pub fn join(before: &str, middle: &str, after: &str) -> (joined: String)
    ensures
        joined@ == before@ + middle@ + after@,
{
    let mut joined = String::new();
    joined.append(before);
    joined.append(middle);
    joined.append(after);
    assert(joined@ =~= before@ + middle@ + after@);
    joined
}

} // verus!
