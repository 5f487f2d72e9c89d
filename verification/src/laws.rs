//! What holds of the grammar, of the markup and of every run.

use vstd::prelude::*;
use crate::event::DocEventView;
use crate::marker::{
    classify_spec, close_prefix, has_close_shape, has_open_shape, interior, is_close_marker,
    is_open_marker, open_prefix, MarkerView, CLOSE_PREFIX_LEN, MIN_MARKER_LEN, OPEN_PREFIX_LEN,
};
use crate::markup::{
    block_class, class_attribute, close_markup, decimal, decimal_value, level_class_prefix,
    open_markup,
};
use crate::nesting::{run_spec, step_spec, NestingError, Transition, MAX_DEPTH};

verus! {

/// By how much an event moves the nesting depth: an open marker by one up, a
/// close marker by one down, anything else not at all.
pub open spec fn nesting_change<T>(event: DocEventView<T>) -> int {
    match event {
        DocEventView::Text(payload) => if is_open_marker(payload) {
            1
        } else if is_close_marker(payload) {
            -1
        } else {
            0
        },
        _ => 0,
    }
}

/// The number of open markers among `events` less the number of close
/// markers.
pub open spec fn net_nesting<T>(events: Seq<DocEventView<T>>) -> int
    decreases events.len(),
{
    if events.len() == 0 {
        0
    } else {
        net_nesting(events.drop_last()) + nesting_change(events.last())
    }
}

/// At every point of `events` the blocks opened so far and not yet closed
/// are at least none and at most [`MAX_DEPTH`].
pub open spec fn properly_nested<T>(events: Seq<DocEventView<T>>) -> bool {
    forall|k: int| 0 <= k <= events.len() ==> 0 <= #[trigger] net_nesting(events.take(k)) <= MAX_DEPTH
}

/// `events` is properly nested and closes every block it opens.
pub open spec fn balanced<T>(events: Seq<DocEventView<T>>) -> bool {
    properly_nested(events) && net_nesting(events) == 0
}

/// The close marker at `j` closes the block that the open marker at `i`
/// opens: it is the first event after `i` that brings the depth back to what
/// it was before `i`.
pub open spec fn closes<T>(events: Seq<DocEventView<T>>, i: int, j: int) -> bool {
    &&& 0 <= i < j < events.len()
    &&& nesting_change(events[i]) == 1
    &&& nesting_change(events[j]) == -1
    &&& net_nesting(events.take(j + 1)) == net_nesting(events.take(i))
    &&& forall|k: int| i < k <= j ==> #[trigger] net_nesting(events.take(k)) > net_nesting(events.take(i))
}

/// The class name that the event carries, where it is a marker.
pub open spec fn class_name<T>(event: DocEventView<T>) -> Seq<char> {
    match event {
        DocEventView::Text(payload) => match classify_spec(payload) {
            MarkerView::Open(name) => name,
            MarkerView::Close(name) => name,
            MarkerView::Plain => Seq::empty(),
        },
        _ => Seq::empty(),
    }
}

/// The nesting after one more event is the nesting before it and the change
/// that the event makes.
pub proof fn lemma_net_nesting_step<T>(events: Seq<DocEventView<T>>, k: int)
    requires
        0 <= k < events.len(),
    ensures
        net_nesting(events.take(k + 1)) == net_nesting(events.take(k)) + nesting_change(events[k]),
{
    assert(events.take(k + 1).drop_last() =~= events.take(k));
}

/// A payload shorter than [`MIN_MARKER_LEN`] is plain, whatever its shape.
pub proof fn lemma_short_payload_is_plain(payload: Seq<char>)
    requires
        payload.len() < MIN_MARKER_LEN,
    ensures
        classify_spec(payload) is Plain,
{
}

/// A payload of [`MIN_MARKER_LEN`] characters or more is classified by the
/// grammar alone: it opens a block exactly if it has the open shape and
/// closes one exactly if it has the close shape, and the class name is what
/// stands between the prefix and the last character. No payload has both
/// shapes.
pub proof fn lemma_long_payload_follows_grammar(payload: Seq<char>)
    requires
        payload.len() >= MIN_MARKER_LEN,
    ensures
        !(has_open_shape(payload) && has_close_shape(payload)),
        has_open_shape(payload) <==> classify_spec(payload) == MarkerView::Open(
            interior(payload, open_prefix().len()),
        ),
        has_close_shape(payload) <==> classify_spec(payload) == MarkerView::Close(
            interior(payload, close_prefix().len()),
        ),
        !has_open_shape(payload) && !has_close_shape(payload) <==> classify_spec(payload) is Plain,
{
    if has_open_shape(payload) && has_close_shape(payload) {
        assert(payload.subrange(0, 3)[2] == open_prefix()[2]);
        assert(payload.subrange(0, 4)[2] == close_prefix()[2]);
    }
}

/// [`MIN_MARKER_LEN`] is the length of the shortest close marker, and the
/// only payload with the shape of a marker that it turns away is `{:.}`, the
/// open marker without a name.
pub proof fn lemma_threshold_follows_grammar(payload: Seq<char>)
    ensures
        OPEN_PREFIX_LEN == open_prefix().len(),
        CLOSE_PREFIX_LEN == close_prefix().len(),
        MIN_MARKER_LEN == close_prefix().len() + 1,
        has_close_shape(payload) ==> payload.len() >= MIN_MARKER_LEN,
        has_open_shape(payload) && payload.len() < MIN_MARKER_LEN ==> payload == seq![
            '{',
            ':',
            '.',
            '}',
        ],
{
    if has_close_shape(payload) && payload.len() < MIN_MARKER_LEN {
        assert(payload.subrange(0, 4)[3] == close_prefix()[3]);
    }
    if has_open_shape(payload) && payload.len() < MIN_MARKER_LEN {
        if payload.len() == 3 {
            assert(payload.subrange(0, 3)[2] == open_prefix()[2]);
        }
        assert(payload.subrange(0, 3)[0] == open_prefix()[0]);
        assert(payload.subrange(0, 3)[1] == open_prefix()[1]);
        assert(payload.subrange(0, 3)[2] == open_prefix()[2]);
        assert(payload =~= seq!['{', ':', '.', '}']);
    }
}

/// A decimal numeral denotes the number it was made from.
pub proof fn lemma_decimal_denotes(n: nat)
    ensures
        decimal_value(decimal(n)) == Some(n),
    decreases n,
{
    if n >= 10 {
        lemma_decimal_denotes(n / 10);
        assert(decimal(n).drop_last() =~= decimal(n / 10));
        assert(decimal(n / 10).len() >= 1);
    }
}

/// The class list of a block at the top level is its name and the block
/// class; that of a block at a deeper level `level` has one class more, which
/// denotes `level - 1`.
pub proof fn lemma_level_label(name: Seq<char>, level: nat)
    ensures
        level <= 1 ==> class_attribute(name, level) == name + seq![' '] + block_class(),
        level > 1 ==> class_attribute(name, level) == name + seq![' '] + block_class() + seq![' ']
            + level_class_prefix() + decimal((level - 1) as nat),
        level > 1 ==> decimal_value(decimal((level - 1) as nat)) == Some((level - 1) as nat),
{
    if level > 1 {
        lemma_decimal_denotes((level - 1) as nat);
    }
}

/// A step from a depth of at most [`MAX_DEPTH`] leads to such a depth again,
/// and moves the depth by what the event calls for.
pub proof fn lemma_step_keeps_depth_in_range<T>(depth: nat, event: DocEventView<T>)
    requires
        depth <= MAX_DEPTH,
    ensures
        step_spec(depth, event) matches Ok(step) ==> step.depth <= MAX_DEPTH && step.depth == depth
            + nesting_change(event),
        step_spec(depth, event) is Err <==> depth + nesting_change(event) < 0 || depth
            + nesting_change(event) > MAX_DEPTH,
        step_spec(depth, event) == Err::<Transition<T>, NestingError>(
            NestingError::DepthOverflow,
        ) <==> depth + nesting_change(event) > MAX_DEPTH,
        step_spec(depth, event) == Err::<Transition<T>, NestingError>(
            NestingError::UnmatchedClose,
        ) <==> depth + nesting_change(event) < 0,
{
}

/// A run from depth 0 succeeds exactly on properly nested events. It then
/// puts out as many events as it read and ends at the net nesting of the
/// events.
pub proof fn lemma_run_succeeds_iff_properly_nested<T>(events: Seq<DocEventView<T>>)
    ensures
        run_spec(0, events) is Ok <==> properly_nested(events),
        run_spec(0, events) matches Ok(run) ==> run.depth == net_nesting(events)
            && run.output.len() == events.len(),
    decreases events.len(),
{
    if events.len() == 0 {
        assert forall|k: int| 0 <= k <= events.len() implies 0 <= #[trigger] net_nesting(
            events.take(k),
        ) <= MAX_DEPTH by {
            assert(events.take(k) =~= events);
        }
    } else {
        let before = events.drop_last();
        let n = events.len() as int;
        lemma_run_succeeds_iff_properly_nested(before);
        assert(events.take(n) =~= events);
        assert forall|k: int| 0 <= k < n implies before.take(k) == events.take(k) by {
            assert(before.take(k) =~= events.take(k));
        }
        if properly_nested(events) {
            assert forall|k: int| 0 <= k <= before.len() implies 0 <= #[trigger] net_nesting(
                before.take(k),
            ) <= MAX_DEPTH by {
                assert(before.take(k) =~= events.take(k));
            }
            assert(before.take(n - 1) =~= before);
            assert(0 <= net_nesting(events.take(n)) <= MAX_DEPTH);
        }
        match run_spec(0, before) {
            Ok(run) => {
                lemma_step_keeps_depth_in_range(run.depth, events.last());
                if run_spec(0, events) is Ok {
                    assert forall|k: int| 0 <= k <= events.len() implies 0 <= #[trigger] net_nesting(
                        events.take(k),
                    ) <= MAX_DEPTH by {
                        if k < n {
                            assert(before.take(k) =~= events.take(k));
                        }
                    }
                }
            },
            Err(_) => {},
        }
    }
}

/// What a successful run from depth 0 puts out in place of the event at `i`:
/// the event itself where it is no marker, the opening markup of the level
/// reached where it is an open marker, the closing markup where it is a close
/// marker.
pub proof fn lemma_run_output<T>(events: Seq<DocEventView<T>>, i: int)
    requires
        run_spec(0, events) is Ok,
        0 <= i < events.len(),
    ensures
        ({
            let output = run_spec(0, events)->Ok_0.output;
            &&& output.len() == events.len()
            &&& nesting_change(events[i]) == 0 ==> output[i] == events[i]
            &&& nesting_change(events[i]) == 1 ==> output[i] == DocEventView::<T>::Html(
                open_markup(class_name(events[i]), net_nesting(events.take(i + 1)) as nat),
            )
            &&& nesting_change(events[i]) == -1 ==> output[i] == DocEventView::<T>::Html(
                close_markup(),
            )
        }),
    decreases events.len(),
{
    let before = events.drop_last();
    lemma_run_succeeds_iff_properly_nested(events);
    lemma_run_succeeds_iff_properly_nested(before);
    if i == events.len() - 1 {
        assert(events.take(i + 1) =~= events);
    } else {
        lemma_run_output(before, i);
        assert(before.take(i + 1) =~= events.take(i + 1));
    }
}

/// An event that is no marker comes out of a successful run as it went in,
/// and in its place: so such events keep their order.
pub proof fn lemma_plain_events_pass_through<T>(events: Seq<DocEventView<T>>, i: int)
    requires
        run_spec(0, events) is Ok,
        0 <= i < events.len(),
        nesting_change(events[i]) == 0,
    ensures
        run_spec(0, events)->Ok_0.output.len() == events.len(),
        run_spec(0, events)->Ok_0.output[i] == events[i],
{
    lemma_run_output(events, i);
}

/// An open marker that brings a successful run to nesting level `level`
/// comes out as the opening markup of that level: its class list has no
/// level class where `level` is 1, and else the class of `level - 1`.
pub proof fn lemma_open_marker_gets_its_level<T>(events: Seq<DocEventView<T>>, i: int)
    requires
        run_spec(0, events) is Ok,
        0 <= i < events.len(),
        nesting_change(events[i]) == 1,
    ensures
        ({
            let level = net_nesting(events.take(i + 1));
            let name = class_name(events[i]);
            &&& 1 <= level <= MAX_DEPTH
            &&& level == net_nesting(events.take(i)) + 1
            &&& run_spec(0, events)->Ok_0.output[i] == DocEventView::<T>::Html(
                open_markup(name, level as nat),
            )
            &&& level == 1 ==> class_attribute(name, level as nat) == name + seq![' ']
                + block_class()
            &&& level > 1 ==> class_attribute(name, level as nat) == name + seq![' ']
                + block_class() + seq![' '] + level_class_prefix() + decimal((level - 1) as nat)
            &&& level > 1 ==> decimal_value(decimal((level - 1) as nat)) == Some(
                (level - 1) as nat,
            )
        }),
{
    lemma_run_output(events, i);
    lemma_run_succeeds_iff_properly_nested(events);
    lemma_net_nesting_step(events, i);
    let level = net_nesting(events.take(i + 1));
    assert(0 <= net_nesting(events.take(i)));
    assert(level <= MAX_DEPTH);
    lemma_level_label(class_name(events[i]), level as nat);
}

/// A run over balanced events succeeds and ends at depth 0.
pub proof fn lemma_balanced_run_ends_at_depth_zero<T>(events: Seq<DocEventView<T>>)
    requires
        balanced(events),
    ensures
        run_spec(0, events) matches Ok(run) && run.depth == 0 && run.output.len()
            == events.len(),
{
    lemma_run_succeeds_iff_properly_nested(events);
}

/// The first event from `k` on that brings the depth back to what it was
/// before the open marker at `i`.
proof fn lemma_find_close<T>(events: Seq<DocEventView<T>>, i: int, k: int) -> (j: int)
    requires
        balanced(events),
        0 <= i < k <= events.len(),
        nesting_change(events[i]) == 1,
        forall|m: int| i < m <= k ==> #[trigger] net_nesting(events.take(m)) > net_nesting(
            events.take(i),
        ),
    ensures
        closes(events, i, j),
    decreases events.len() - k,
{
    assert(events.take(events.len() as int) =~= events);
    assert(0 <= net_nesting(events.take(i)));
    assert(net_nesting(events.take(k)) > net_nesting(events.take(i)));
    lemma_net_nesting_step(events, k);
    if net_nesting(events.take(k + 1)) > net_nesting(events.take(i)) {
        lemma_find_close(events, i, k + 1)
    } else {
        k
    }
}

/// In balanced events every open marker has its close marker, and a run puts
/// out the opening markup for the one and the closing markup for the other.
pub proof fn lemma_every_open_is_closed<T>(events: Seq<DocEventView<T>>, i: int) -> (j: int)
    requires
        balanced(events),
        0 <= i < events.len(),
        nesting_change(events[i]) == 1,
    ensures
        closes(events, i, j),
        run_spec(0, events) matches Ok(run) && run.output[i] == DocEventView::<T>::Html(
            open_markup(class_name(events[i]), net_nesting(events.take(i + 1)) as nat),
        ) && run.output[j] == DocEventView::<T>::Html(close_markup()),
{
    lemma_run_succeeds_iff_properly_nested(events);
    lemma_net_nesting_step(events, i);
    let j = lemma_find_close(events, i, i + 1);
    lemma_run_output(events, i);
    lemma_run_output(events, j);
    j
}

} // verus!
