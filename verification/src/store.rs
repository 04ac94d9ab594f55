//! Default-version store: the fallback rule for reading the persisted
//! selection. Writing the selection is plain key/value persistence and
//! stays outside; only its read contract matters here.

use vstd::prelude::*;

verus! {

/// The default version consumers must use: the persisted selection when
/// one is present and readable, otherwise the freshly resolved latest
/// release. An unset or unreadable selection arrives here as `None`;
/// the fallback is documented behavior, not an error path.
pub fn effective_default(persisted: &Option<String>, latest: &String) -> (r: String)
    ensures
        match persisted {
            Option::Some(v) => r@ == v@,
            Option::None => r@ == latest@,
        },
{
    match persisted {
        Option::Some(v) => v.clone(),
        Option::None => latest.clone(),
    }
}

} // verus!
