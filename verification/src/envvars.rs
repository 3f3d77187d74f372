//! Settings that come from the process environment.

use vstd::prelude::*;

verus! {

/// Prepares the environment before the settings are read from it. The
/// environment is taken as the process has it, so there is nothing that can
/// fail.
pub fn use_dotenv() -> (result: Result<(), ()>)
    ensures
        result is Ok,
{
    Ok(())
}

} // verus!
