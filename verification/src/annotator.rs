//! The rewriter: a pull-based, single-pass transform over a stream of events.

use std::collections::VecDeque;
use vstd::prelude::*;
use crate::event::{DocEvent, DocEventView};
use crate::nesting::{
    lemma_failed_prefix_fails_run, rewrite_event, run_spec, step_spec, NestingError, Run, MAX_DEPTH,
};

verus! {

/// Rewrites the events of one unit of content, one event for each call of
/// [`EventClassAnnotator::next`]. It owns the events still to be read and the
/// nesting depth, which starts at 0 and belongs to this run alone.
pub struct EventClassAnnotator<T> {
    stack: VecDeque<DocEvent<T>>,
    depth: usize,
}

impl<T> EventClassAnnotator<T> {
    /// The depth is one that a run can reach: at most [`MAX_DEPTH`].
    pub closed spec fn wf(&self) -> bool {
        self.depth <= MAX_DEPTH
    }

    /// The events not yet read, in order.
    pub closed spec fn pending(&self) -> Seq<DocEventView<T>> {
        self.stack.deep_view()
    }

    /// The number of blocks open after the events read so far.
    pub closed spec fn depth_spec(&self) -> nat {
        self.depth as nat
    }

    /// A rewriter that will read `stack` from its first event on, at depth 0.
    pub fn new(stack: Vec<DocEvent<T>>) -> (annotator: Self)
        ensures
            annotator.wf(),
            annotator.pending() == stack.deep_view(),
            annotator.depth_spec() == 0,
    {
        let ghost events = stack@;
        let mut rest = stack;
        let mut queue: VecDeque<DocEvent<T>> = VecDeque::new();
        loop
            invariant
                rest@ + queue@ == events,
            ensures
                queue@ == events,
            decreases rest.len(),
        {
            match rest.pop() {
                Some(event) => {
                    queue.push_front(event);
                    assert(rest@ + queue@ =~= events);
                },
                None => {
                    assert(rest@ + queue@ =~= queue@);
                    break ;
                },
            }
        }
        let annotator = EventClassAnnotator { stack: queue, depth: 0 };
        assert(annotator.pending() =~= stack.deep_view());
        annotator
    }

    /// The number of blocks open after the events read so far; never more
    /// than [`MAX_DEPTH`].
    pub fn depth(&self) -> (depth: usize)
        requires
            self.wf(),
        ensures
            depth == self.depth_spec(),
            depth <= MAX_DEPTH,
    {
        self.depth
    }

    /// Reads the next event and puts out what takes its place: `None` once
    /// no event is left, else the outcome of one step at the present depth.
    /// A step that fails ends the run: the depth stays as it was, and the
    /// events not yet read are dropped, so that nothing more comes out.
    pub fn next(&mut self) -> (item: Option<Result<DocEvent<T>, NestingError>>)
        requires
            old(self).wf(),
        ensures
            final(self).wf(),
            old(self).pending().len() == 0 ==> {
                &&& item is None
                &&& final(self).pending() == old(self).pending()
                &&& final(self).depth_spec() == old(self).depth_spec()
            },
            old(self).pending().len() > 0 ==> match step_spec(
                old(self).depth_spec(),
                old(self).pending()[0],
            ) {
                Ok(step) => {
                    &&& item matches Some(Ok(output))
                    &&& output@ == step.output
                    &&& final(self).depth_spec() == step.depth
                    &&& final(self).pending() == old(self).pending().drop_first()
                },
                Err(error) => {
                    &&& item matches Some(Err(e))
                    &&& e == error
                    &&& final(self).depth_spec() == old(self).depth_spec()
                    &&& final(self).pending().len() == 0
                },
            },
    {
        match self.stack.pop_front() {
            None => None,
            Some(current) => {
                assert(self.stack.deep_view() =~= old(self).stack.deep_view().drop_first());
                match rewrite_event(self.depth, current) {
                    Ok((depth, output)) => {
                        self.depth = depth;
                        Some(Ok(output))
                    },
                    Err(error) => {
                        self.stack.clear();
                        Some(Err(error))
                    },
                }
            },
        }
    }

    /// Runs the rewriter to its end: the events put out for the events not
    /// yet read, or the error of the first step that fails.
    pub fn collect(self) -> (result: Result<Vec<DocEvent<T>>, NestingError>)
        requires
            self.wf(),
        ensures
            match run_spec(self.depth_spec(), self.pending()) {
                Ok(run) => result matches Ok(events) && events.deep_view() == run.output,
                Err(error) => result matches Err(e) && e == error,
            },
    {
        let ghost start = self.depth_spec();
        let ghost events = self.pending();
        let ghost mut read: int = 0;
        let mut annotator = self;
        let mut output: Vec<DocEvent<T>> = Vec::new();
        assert(output.deep_view() =~= Seq::<DocEventView<T>>::empty());
        assert(events.skip(0) =~= events);
        loop
            invariant
                start == self.depth_spec(),
                events == self.pending(),
                annotator.wf(),
                0 <= read <= events.len(),
                annotator.pending() == events.skip(read),
                run_spec(start, events.take(read)) == Ok::<Run<T>, NestingError>(
                    Run { output: output.deep_view(), depth: annotator.depth_spec() },
                ),
            decreases events.len() - read,
        {
            let ghost written = output.deep_view();
            match annotator.next() {
                None => {
                    assert(events.take(read) =~= events);
                    return Ok(output);
                },
                Some(Ok(event)) => {
                    output.push(event);
                    proof {
                        assert(events.take(read + 1).drop_last() =~= events.take(read));
                        assert(events.skip(read).drop_first() =~= events.skip(read + 1));
                        assert(output.deep_view() =~= written.push(event@));
                        read = read + 1;
                    }
                },
                Some(Err(error)) => {
                    proof {
                        assert(events.take(read + 1).drop_last() =~= events.take(read));
                        lemma_failed_prefix_fails_run(start, events, read + 1);
                    }
                    return Err(error);
                },
            }
        }
    }
}

} // verus!
