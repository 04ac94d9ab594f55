//! Launch reporting: launching spawns the installed executable and
//! persists the chosen version as the new default. A failure to persist
//! must not block the launch itself — starting the already-resolved
//! binary is worth more than aborting on a bookkeeping fault — but it is
//! still surfaced to the caller afterwards.

use vstd::prelude::*;
use crate::errors::Error;

verus! {

/// Fold the outcomes of the two launch side effects into the operation's
/// result: a failed spawn is fatal; a failed persist alone is reported
/// after the process has already started; otherwise the launch succeeded.
pub fn launch_report(persist_failed: bool, spawn_failed: bool) -> (r: Result<(), Error>)
    ensures
        spawn_failed ==> r == Err::<(), Error>(Error::Launch),
        !spawn_failed && persist_failed ==> r == Err::<(), Error>(Error::ConfigWrite),
        !spawn_failed && !persist_failed ==> r is Ok,
{
    if spawn_failed {
        Err(Error::Launch)
    } else if persist_failed {
        Err(Error::ConfigWrite)
    } else {
        Ok(())
    }
}

} // verus!
