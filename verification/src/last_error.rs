//! The "last error" slot behind the C interface: each call clears it and a
//! failing call leaves its error's message there.

use vstd::prelude::*;
use crate::error::{error_message, CoreError};

verus! {

/// Stores `msg` as the last error.
pub fn set_last_error(slot: &mut Option<String>, msg: String)
    ensures
        *final(slot) == Some(msg),
{
    *slot = Some(msg);
}

/// Forgets the last error.
pub fn clear_last_error(slot: &mut Option<String>)
    ensures
        *final(slot) == None::<String>,
{
    *slot = None;
}

/// Runs `f` with the slot cleared: its value comes back as `Some`, while an
/// error comes back as `None` and leaves its message in the slot.
pub fn with_error_capture<T, F: FnOnce() -> Result<T, CoreError>>(
    slot: &mut Option<String>,
    f: F,
) -> (res: Option<T>)
    requires
        f.requires(()),
    ensures
        exists|outcome: Result<T, CoreError>|
            #[trigger] f.ensures((), outcome) && match outcome {
                Ok(v) => res == Some(v) && *final(slot) == None::<String>,
                Err(e) => res == None::<T> && (*final(slot) matches Some(m) && m@ == error_message(
                    e@,
                )),
            },
{
    clear_last_error(slot);
    let outcome = f();
    match outcome {
        Ok(v) => Some(v),
        Err(e) => {
            set_last_error(slot, e.message());
            None
        },
    }
}

} // verus!
