//! The transition of the rewriter: from a depth and an event to the next depth
//! and the event to put out.

use vstd::prelude::*;
use crate::event::{DocEvent, DocEventView};
use crate::marker::{classify, classify_spec, Marker, MarkerView};
use crate::markup::{close_div, close_markup, open_div, open_markup};

verus! {

/// The deepest nesting of blocks that is accepted.
pub const MAX_DEPTH: usize = 254;

/// Why a run over malformed input stops.
#[derive(Debug, Clone, Copy, PartialEq, Eq, Structural)]
pub enum NestingError {
    /// An open marker came while [`MAX_DEPTH`] blocks were open.
    DepthOverflow,
    /// A close marker came while no block was open.
    UnmatchedClose,
}

/// Where one step leads: the depth after it and the event put out.
pub struct Transition<T> {
    /// The number of blocks open after the step.
    pub depth: nat,
    /// The event put out in place of the one read.
    pub output: DocEventView<T>,
}

/// One step of the rewriter at nesting depth `depth`.
///
/// An open marker goes one level deeper and becomes the opening markup of
/// that level, unless [`MAX_DEPTH`] blocks are open already. A close marker
/// comes one level back and becomes the closing markup, unless no block is
/// open. Anything else leaves the depth as it is and is put out unchanged.
pub open spec fn step_spec<T>(depth: nat, event: DocEventView<T>) -> Result<
    Transition<T>,
    NestingError,
> {
    match event {
        DocEventView::Text(payload) => match classify_spec(payload) {
            MarkerView::Open(name) => if depth >= MAX_DEPTH {
                Err(NestingError::DepthOverflow)
            } else {
                Ok(
                    Transition {
                        depth: depth + 1,
                        output: DocEventView::Html(open_markup(name, depth + 1)),
                    },
                )
            },
            MarkerView::Close(_) => if depth == 0 {
                Err(NestingError::UnmatchedClose)
            } else {
                Ok(
                    Transition {
                        depth: (depth - 1) as nat,
                        output: DocEventView::Html(close_markup()),
                    },
                )
            },
            MarkerView::Plain => Ok(Transition { depth, output: event }),
        },
        _ => Ok(Transition { depth, output: event }),
    }
}

/// Where a run over a sequence of events ends: the events put out and the
/// depth after the last of them.
pub struct Run<T> {
    /// The events put out, one for each event read.
    pub output: Seq<DocEventView<T>>,
    /// The number of blocks left open.
    pub depth: nat,
}

/// A run over `events` that starts at nesting depth `depth`: the steps are
/// taken in order, each at the depth that the one before it left, and the
/// first step that fails ends the run with its error.
pub open spec fn run_spec<T>(depth: nat, events: Seq<DocEventView<T>>) -> Result<Run<T>, NestingError>
    decreases events.len(),
{
    if events.len() == 0 {
        Ok(Run { output: Seq::empty(), depth })
    } else {
        match run_spec(depth, events.drop_last()) {
            Err(error) => Err(error),
            Ok(before) => match step_spec(before.depth, events.last()) {
                Err(error) => Err(error),
                Ok(step) => Ok(
                    Run { output: before.output.push(step.output), depth: step.depth },
                ),
            },
        }
    }
}

/// `event` may stand in a document where `pattern` stood: events that carry
/// a payload may take each other's place, any other event only its own.
pub open spec fn stands_for<T>(event: DocEventView<T>, pattern: DocEventView<T>) -> bool {
    if pattern is Other {
        event == pattern
    } else {
        !(event is Other)
    }
}

/// `events` has the structure of `pattern`: as many events, each standing
/// for the one in its place.
pub open spec fn same_structure<T>(events: Seq<DocEventView<T>>, pattern: Seq<DocEventView<T>>) -> bool {
    &&& events.len() == pattern.len()
    &&& forall|i: int| 0 <= i < events.len() ==> stands_for(#[trigger] events[i], pattern[i])
}

/// A run puts out one event for each event read, and each stands for the one
/// it was made from: whatever carries no payload stays as it is and where it
/// is.
pub proof fn lemma_run_keeps_structure<T>(depth: nat, events: Seq<DocEventView<T>>)
    ensures
        run_spec(depth, events) matches Ok(run) ==> same_structure(run.output, events),
    decreases events.len(),
{
    if events.len() > 0 {
        lemma_run_keeps_structure(depth, events.drop_last());
    }
}

/// A run that fails on the first `k` events fails on all of them, with the
/// same error.
pub proof fn lemma_failed_prefix_fails_run<T>(depth: nat, events: Seq<DocEventView<T>>, k: int)
    requires
        0 <= k <= events.len(),
        run_spec(depth, events.take(k)) is Err,
    ensures
        run_spec(depth, events) == run_spec(depth, events.take(k)),
    decreases events.len() - k,
{
    if k == events.len() {
        assert(events.take(k) =~= events);
    } else {
        assert(events.drop_last().take(k) =~= events.take(k));
        lemma_failed_prefix_fails_run(depth, events.drop_last(), k);
    }
}

/// Takes one step of the rewriter: from the depth before `event` to the depth
/// after it and the event to put out.
pub fn rewrite_event<T>(depth: usize, event: DocEvent<T>) -> (result: Result<
    (usize, DocEvent<T>),
    NestingError,
>)
    ensures
        match step_spec(depth as nat, event@) {
            Ok(step) => result matches Ok((next, output)) && next == step.depth && output@
                == step.output,
            Err(error) => result matches Err(e) && e == error,
        },
{
    match event {
        DocEvent::Text(payload) => match classify(payload.as_str()) {
            Marker::Open(name) => {
                if depth >= MAX_DEPTH {
                    Err(NestingError::DepthOverflow)
                } else {
                    let level: usize = depth + 1;
                    Ok((level, DocEvent::Html(open_div(name.as_str(), level))))
                }
            },
            Marker::Close(_) => {
                if depth == 0 {
                    Err(NestingError::UnmatchedClose)
                } else {
                    Ok((depth - 1, DocEvent::Html(close_div())))
                }
            },
            Marker::Plain => Ok((depth, DocEvent::Text(payload))),
        },
        other => Ok((depth, other)),
    }
}

} // verus!
