//! What to do with an output file.

use vstd::prelude::*;

verus! {

/// Whether the output is to be written to its destination: always, but for
/// a destination that is to be left alone when unchanged and already holds
/// exactly the output.  `existing` is what the destination holds, where it
/// could be read.
pub fn should_write(existing: Option<&str>, output: &str, write_only_if_changed: bool) -> (r: bool)
    ensures
        r == !(write_only_if_changed && existing is Some && existing->Some_0@ == output@),
{
    if write_only_if_changed {
        match existing {
            Some(existing) => !(String::from_str(existing) == String::from_str(output)),
            None => true,
        }
    } else {
        true
    }
}

} // verus!
