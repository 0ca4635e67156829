//! Small string helpers shared by the modules that build messages.

use vstd::prelude::*;

verus! {

/// `head` followed by `tail`, as a new string.
pub fn concat(head: &str, tail: &str) -> (s: String)
    ensures
        s@ == head@ + tail@,
{
    let mut s = head.to_owned();
    s.append(tail);
    s
}

} // verus!
