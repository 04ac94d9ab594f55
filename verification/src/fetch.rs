//! Artifact fetcher: one streamed transfer reduced to plain values, the
//! progress notifications it owes the observer, and the idempotent,
//! atomic fetch of a single artifact.
//!
//! A transfer either completes, yielding exactly the received bytes, or
//! breaks mid-stream, in which case no artifact may appear at the final
//! install path: the previous artifact, if any, stays untouched.

use vstd::prelude::*;
use crate::errors::FetchError;

verus! {

/// One notification to the progress observer.
#[derive(Clone, Copy, Debug, PartialEq, Eq, Structural)]
pub enum FetchEvent {
    /// The declared total size, reported exactly once, before any
    /// progress report.
    TotalSize(u64),
    /// Cumulative bytes received so far, reported once per chunk.
    Progress(u64),
}

/// One streamed transfer, reduced to plain values: the declared content
/// length, the chunks that arrived, and whether the stream broke before
/// completion.
pub struct Transfer {
    pub declared_size: u64,
    pub chunks: Vec<Vec<u8>>,
    pub interrupted: bool,
}

/// The bytes of a completed transfer.
pub open spec fn transfer_bytes(t: Transfer) -> Seq<u8> {
    t.chunks.deep_view().flatten()
}

/// The exact observer notifications of a transfer: the declared size
/// first, then one cumulative progress report per received chunk.
pub open spec fn transfer_events(t: Transfer) -> Seq<FetchEvent> {
    Seq::new(
        t.chunks@.len() + 1,
        |i: int|
            if i == 0 {
                FetchEvent::TotalSize(t.declared_size)
            } else {
                FetchEvent::Progress(t.chunks.deep_view().subrange(0, i).flatten().len() as u64)
            },
    )
}

fn push_bytes(acc: &mut Vec<u8>, chunk: &Vec<u8>)
    ensures
        final(acc)@ == old(acc)@ + chunk@,
{
    let mut j: usize = 0;
    proof {
        assert(acc@ + chunk@.subrange(0, 0) =~= acc@);
    }
    while j < chunk.len()
        invariant
            j <= chunk@.len(),
            acc@ == old(acc)@ + chunk@.subrange(0, j as int),
        decreases chunk@.len() - j,
    {
        acc.push(chunk[j]);
        proof {
            assert((old(acc)@ + chunk@.subrange(0, j as int)).push(chunk@[j as int])
                =~= old(acc)@ + chunk@.subrange(0, j as int + 1));
        }
        j += 1;
    }
    proof {
        assert(chunk@.subrange(0, chunk@.len() as int) =~= chunk@);
    }
}

/// Run one streamed transfer: report the declared size exactly once,
/// then cumulative progress once per received chunk; yield the received
/// bytes on completion, and an error — with no bytes — when the stream
/// broke mid-way.
pub fn run_transfer(t: &Transfer) -> (res: (Result<Vec<u8>, FetchError>, Vec<FetchEvent>))
    ensures
        res.1@ == transfer_events(*t),
        t.interrupted ==> res.0 == Err::<Vec<u8>, FetchError>(FetchError::Interrupted),
        !t.interrupted ==> (res.0 matches Ok(data) && data@ == transfer_bytes(*t)),
{
    let mut events: Vec<FetchEvent> = Vec::new();
    events.push(FetchEvent::TotalSize(t.declared_size));
    let mut acc: Vec<u8> = Vec::new();
    let mut k: usize = 0;
    proof {
        assert(t.chunks.deep_view().subrange(0, 0) =~= Seq::<Seq<u8>>::empty());
        assert(Seq::<Seq<u8>>::empty().flatten() =~= Seq::<u8>::empty());
    }
    while k < t.chunks.len()
        invariant
            k <= t.chunks@.len(),
            acc@ == t.chunks.deep_view().subrange(0, k as int).flatten(),
            events@.len() == k + 1,
            events@[0] == FetchEvent::TotalSize(t.declared_size),
            forall|i: int|
                1 <= i <= k ==> events@[i] == FetchEvent::Progress(
                    t.chunks.deep_view().subrange(0, i).flatten().len() as u64,
                ),
        decreases t.chunks@.len() - k,
    {
        push_bytes(&mut acc, &t.chunks[k]);
        events.push(FetchEvent::Progress(acc.len() as u64));
        proof {
            let dv = t.chunks.deep_view();
            let pre = dv.subrange(0, k as int);
            assert(dv.subrange(0, k as int + 1) =~= pre.push(dv[k as int]));
            pre.lemma_flatten_push(dv[k as int]);
            assert(dv[k as int] == t.chunks@[k as int]@);
        }
        k += 1;
    }
    proof {
        assert(t.chunks.deep_view().subrange(0, t.chunks@.len() as int) =~= t.chunks.deep_view());
        assert(events@ =~= transfer_events(*t));
    }
    if t.interrupted {
        (Err(FetchError::Interrupted), events)
    } else {
        (Ok(acc), events)
    }
}

/// One idempotent, atomic artifact fetch. When the artifact already
/// exists and no re-fetch is forced, the transfer is skipped entirely;
/// otherwise the transfer runs, and on success the artifact is replaced
/// as a whole, while on failure the previous state — existing artifact
/// or none — is left exactly as it was.
pub fn fetch_artifact(existing: Option<Vec<u8>>, force: bool, t: &Transfer) -> (res: (
    Option<Vec<u8>>,
    Result<(), FetchError>,
    Vec<FetchEvent>,
))
    ensures
        ({
            let (artifact, outcome, events) = res;
            &&& (!force && existing is Some) ==> {
                &&& artifact == existing
                &&& outcome is Ok
                &&& events@.len() == 0
            }
            &&& !(!force && existing is Some) ==> {
                &&& events@ == transfer_events(*t)
                &&& (t.interrupted ==> artifact == existing && outcome == Err::<(),
                    FetchError,
                >(FetchError::Interrupted))
                &&& (!t.interrupted ==> outcome is Ok && (artifact matches Some(d) && d@
                    == transfer_bytes(*t)))
            }
        }),
{
    if !force && existing.is_some() {
        let events: Vec<FetchEvent> = Vec::new();
        return (existing, Ok(()), events);
    }
    let (data, events) = run_transfer(t);
    match data {
        Ok(d) => (Some(d), Ok(()), events),
        Err(e) => (existing, Err(e), events),
    }
}

} // verus!
