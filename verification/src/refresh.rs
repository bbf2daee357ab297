//! The decisions of the snapshot lifecycle: accepting the initial load and
//! applying a refresh cycle's outcome.
//!
//! The fetch and load collaborators do I/O elsewhere and hand their
//! outcomes in as plain `Result` values; these functions decide what
//! becomes of the store. A failed cycle leaves the last good snapshot in
//! place — the store is only ever touched with a validated, complete
//! replacement.

use vstd::prelude::*;

verus! {

use vstd::string::StringExecFns;
use crate::error::NetVizError;
use crate::models::Network;
use crate::models::check_snapshot;
use crate::models::snapshot_wf;
use crate::store::DataStore;

/// Accepts the startup load: a store is created exactly when the load
/// succeeded with a well-formed snapshot; anything else is fatal and is
/// returned as the error of the failing step.
pub fn initial_snapshot(loaded: Result<Vec<Network>, NetVizError>) -> (r: Result<
    DataStore,
    NetVizError,
>)
    ensures
        r is Ok <==> (loaded is Ok && snapshot_wf(loaded->Ok_0@)),
        loaded is Err ==> r is Err && r->Err_0 == loaded->Err_0,
        (loaded is Ok && !snapshot_wf(loaded->Ok_0@)) ==> r is Err && r->Err_0 is ParseFailure,
{
    match loaded {
        Err(e) => Err(e),
        Ok(records) => {
            if check_snapshot(&records) {
                Ok(DataStore::new(records))
            } else {
                Err(NetVizError::ParseFailure(String::from_str("a count field is negative")))
            }
        },
    }
}

/// Applies one refresh cycle's load outcome to the store: a successful
/// load of a well-formed snapshot replaces the current one wholesale and
/// reports how many records were installed; any failure changes nothing
/// and is reported — a failed refresh degrades to serving stale data,
/// never to serving corrupt data.
pub fn apply_refresh(store: &DataStore, loaded: Result<Vec<Network>, NetVizError>) -> (r: Result<
    usize,
    NetVizError,
>)
    ensures
        r is Ok <==> (loaded is Ok && snapshot_wf(loaded->Ok_0@)),
        r is Ok ==> r->Ok_0 == loaded->Ok_0@.len(),
        loaded is Err ==> r is Err && r->Err_0 == loaded->Err_0,
        (loaded is Ok && !snapshot_wf(loaded->Ok_0@)) ==> r is Err && r->Err_0 is ParseFailure,
{
    match loaded {
        Err(e) => Err(e),
        Ok(records) => {
            if check_snapshot(&records) {
                let count = records.len();
                store.replace(records);
                Ok(count)
            } else {
                Err(NetVizError::ParseFailure(String::from_str("a count field is negative")))
            }
        },
    }
}

} // verus!
