//! What holds of the connection state machine, proved of [`step`] for every
//! state and every event.
//!
//! The framer's verdict on a byte sequence is httparse's and is not known
//! here. Where a statement depends on that verdict, it says so in its
//! `requires`, in terms of [`frame`].

use crate::http_parser::filled_count;
use crate::http_parser::frame;
use crate::http_parser::lemma_filled_count_bounded;
use crate::http_parser::request_of;
use crate::http_parser::Framing;
use crate::http_parser::ParseFault;
use crate::http_parser::RawHeadView;
use crate::http_parser::RequestView;
use crate::lifecycle::outcome;
use crate::lifecycle::step;
use crate::lifecycle::ActionView;
use crate::lifecycle::ConnectionView;
use crate::lifecycle::EventView;
use crate::lifecycle::ProxyError;
use crate::lifecycle::Stage;
use crate::wire::request_wire;
use crate::wire::response_wire;
use crate::wire::SyntheticStatus;
use vstd::prelude::*;

verus! {

/// The fragments of a read sequence, delivered one read after another: the
/// state and the action after the last of them, or `None` if there is no
/// fragment or if one of them had no place when its turn came.
pub open spec fn feed(connection: ConnectionView, fragments: Seq<Seq<u8>>) -> Option<
    (ConnectionView, ActionView),
>
    decreases fragments.len(),
{
    if fragments.len() == 0 {
        None
    } else {
        match step(connection, EventView::ClientData(fragments[0])) {
            None => None,
            Some((next, action)) => if fragments.len() == 1 {
                Some((next, action))
            } else {
                feed(next, fragments.skip(1))
            },
        }
    }
}

/// The actions that a run of events draws from the machine, in their order.
/// An event that has no place when its turn comes draws none.
pub open spec fn run(connection: ConnectionView, events: Seq<EventView>) -> Seq<ActionView>
    decreases events.len(),
{
    if events.len() == 0 {
        Seq::empty()
    } else {
        let (next, action) = outcome(connection, events[0]);
        match action {
            Some(action) => seq![action] + run(next, events.skip(1)),
            None => run(next, events.skip(1)),
        }
    }
}

/// The fragments of a read sequence, delivered one read after another for as
/// long as the head is being read: the state and the action after the first
/// fragment that ends the reading, or after the last fragment.
pub open spec fn deliver(connection: ConnectionView, fragments: Seq<Seq<u8>>) -> Option<
    (ConnectionView, ActionView),
>
    decreases fragments.len(),
{
    if fragments.len() == 0 {
        None
    } else {
        match step(connection, EventView::ClientData(fragments[0])) {
            None => None,
            Some((next, action)) => if fragments.len() == 1 || next.stage != Stage::Reading {
                Some((next, action))
            } else {
                deliver(next, fragments.skip(1))
            },
        }
    }
}

/// The framer's verdict on `bytes` stands when `more` bytes follow them: a
/// head that is complete stays the same head of the same length, and a head
/// that is malformed stays malformed in the same way.
pub open spec fn verdict_stands(bytes: Seq<u8>, more: Seq<u8>) -> bool {
    match frame(bytes) {
        Framing::Incomplete => true,
        verdict => frame(bytes + more) == verdict,
    }
}

/// The framer's verdict after each fragment but the last stands when the
/// fragments that are still to come follow.
pub open spec fn verdicts_stand(buffer: Seq<u8>, fragments: Seq<Seq<u8>>) -> bool {
    forall|j: int|
        1 <= j < fragments.len() ==> verdict_stands(
            buffer + (#[trigger] fragments.take(j)).flatten(),
            fragments.skip(j).flatten(),
        )
}

/// The framer finds the head incomplete after each fragment but the last.
pub open spec fn incomplete_before_last(buffer: Seq<u8>, fragments: Seq<Seq<u8>>) -> bool {
    forall|j: int|
        1 <= j < fragments.len() ==> frame(buffer + (#[trigger] fragments.take(j)).flatten())
            is Incomplete
}

/// A connection starts well formed.
pub proof fn lemma_initial_is_well_formed(capacity: nat)
    ensures
        ConnectionView::initial(capacity).wf(),
        ConnectionView::initial(capacity).stage == Stage::Reading,
{
}

/// Every step keeps a connection well formed, and never changes its capacity.
pub proof fn lemma_step_keeps_well_formed(connection: ConnectionView, event: EventView)
    requires
        connection.wf(),
    ensures
        outcome(connection, event).0.wf(),
        outcome(connection, event).0.capacity == connection.capacity,
{
}

/// `Closed` and the five exits are final: no event has a place there, so
/// nothing is asked for after the action that led there.
pub proof fn lemma_final_stages_accept_nothing(connection: ConnectionView, event: EventView)
    requires
        connection.is_final(),
    ensures
        step(connection, event) is None,
{
}

/// Whatever happens on the sockets of a connection that has ended, nothing
/// more is asked for.
pub proof fn lemma_nothing_follows_the_end(connection: ConnectionView, events: Seq<EventView>)
    requires
        connection.is_final(),
    ensures
        run(connection, events) == Seq::<ActionView>::empty(),
    decreases events.len(),
{
    if events.len() > 0 {
        lemma_nothing_follows_the_end(connection, events.skip(1));
    }
}

/// An action that ends the connection is the last: whatever is reported
/// afterwards, the run consists of that action alone. So a connection is
/// answered with a synthetic response at most once.
pub proof fn lemma_ending_is_last(
    connection: ConnectionView,
    event: EventView,
    later: Seq<EventView>,
)
    requires
        step(connection, event) matches Some((_, action)) && (action is Reject || action is Close),
    ensures
        run(connection, seq![event] + later) == seq![step(connection, event).unwrap().1],
{
    let (next, action) = step(connection, event).unwrap();
    let events = seq![event] + later;
    lemma_final_iff_ended(connection, event);
    lemma_nothing_follows_the_end(next, later);
    assert(events.skip(1) =~= later);
    assert(events[0] == event);
    assert(run(connection, events) =~= seq![action] + run(next, later));
}

/// An action that ends the connection leaves it in a final stage, and no
/// other action does.
pub proof fn lemma_final_iff_ended(connection: ConnectionView, event: EventView)
    requires
        step(connection, event) is Some,
    ensures
        step(connection, event).unwrap().0.is_final() <==> (step(connection, event).unwrap().1
            is Reject || step(connection, event).unwrap().1 is Close),
{
}

/// A synthetic response is written only in answer to the failure that it
/// names: 400 to a malformed head, 413 to a head that outgrows the buffer,
/// 502 to an upstream that cannot be connected or written to.
pub proof fn lemma_rejections(connection: ConnectionView, event: EventView)
    requires
        step(connection, event) matches Some((_, action)) && action is Reject,
    ensures
        ({
            let (next, action) = step(connection, event).unwrap();
            let response = action->response;
            match action->error {
                ProxyError::Malformed(_) => {
                    &&& next.stage == Stage::BadRequest
                    &&& response == response_wire(SyntheticStatus::BadRequest)
                    &&& connection.stage == Stage::Reading
                },
                ProxyError::BufferExhausted => {
                    &&& next.stage == Stage::TooLarge
                    &&& response == response_wire(SyntheticStatus::PayloadTooLarge)
                    &&& connection.stage == Stage::Reading
                },
                ProxyError::UpstreamUnreachable => {
                    &&& next.stage == Stage::UpstreamUnavailable
                    &&& response == response_wire(SyntheticStatus::BadGateway)
                    &&& event is UpstreamRefused
                },
                ProxyError::ForwardWriteFailed => {
                    &&& next.stage == Stage::ForwardFailed
                    &&& response == response_wire(SyntheticStatus::BadGateway)
                    &&& event is ForwardWriteFailed
                },
                ProxyError::Io | ProxyError::PeerClosed => false,
            }
        }),
{
}

/// Every error has the response that goes with it, or none: an action that
/// answers the client carries the response of its error, and an action that
/// ends the connection with an error but without a response carries an error
/// to which none is owed. A client that has closed is one of these.
pub proof fn lemma_errors_and_responses(connection: ConnectionView, event: EventView)
    requires
        step(connection, event) is Some,
    ensures
        match step(connection, event).unwrap().1 {
            ActionView::Reject { response, error } => {
                &&& error.answered_with() matches Some(status)
                &&& response == response_wire(status)
            },
            ActionView::Close(Err(error)) => error.answered_with() is None,
            _ => true,
        },
        event is ClientClosed ==> step(connection, event).unwrap() == (
            ConnectionView { stage: Stage::ClientGone, ..connection },
            ActionView::Close(Err(ProxyError::PeerClosed)),
        ),
{
}

/// The first fragment leads the rest.
proof fn lemma_flatten_first(fragments: Seq<Seq<u8>>)
    requires
        fragments.len() > 0,
    ensures
        fragments.flatten() == fragments[0] + fragments.skip(1).flatten(),
        fragments.flatten().len() == fragments[0].len() + fragments.skip(1).flatten().len(),
{
    assert(fragments.drop_first() =~= fragments.skip(1));
}

/// Fragmentation is invisible to the framer: as long as the head is not found
/// complete or malformed before the last fragment has arrived, the connection
/// ends up in the very state, with the very action, that one read of all the
/// bytes together would have led to.
pub proof fn lemma_fragmentation_is_invisible(connection: ConnectionView, fragments: Seq<Seq<u8>>)
    requires
        connection.wf(),
        connection.stage == Stage::Reading,
        fragments.len() > 0,
        forall|i: int| 0 <= i < fragments.len() ==> (#[trigger] fragments[i]).len() > 0,
        connection.buffer.len() + fragments.flatten().len() <= connection.capacity,
        incomplete_before_last(connection.buffer, fragments),
    ensures
        feed(connection, fragments) == step(connection, EventView::ClientData(fragments.flatten())),
    decreases fragments.len(),
{
    let first = fragments[0];
    let rest = fragments.skip(1);
    lemma_flatten_first(fragments);
    if fragments.len() == 1 {
        assert(rest.flatten() =~= Seq::<u8>::empty());
        assert(fragments.flatten() =~= first);
    } else {
        assert(rest[0].len() > 0) by {
            assert(rest[0] == fragments[1]);
        }
        lemma_flatten_first(rest);
        assert(frame(connection.buffer + first) is Incomplete) by {
            let one = fragments.take(1);
            one.lemma_flatten_one_element();
            assert(one.first() == first);
        }
        let next = ConnectionView { buffer: connection.buffer + first, ..connection };
        assert(step(connection, EventView::ClientData(first)) == Some(
            (next, ActionView::ReadClient { max: next.room() as nat }),
        ));
        assert forall|i: int| 0 <= i < rest.len() implies (#[trigger] rest[i]).len() > 0 by {
            assert(rest[i] == fragments[i + 1]);
        }
        assert(incomplete_before_last(next.buffer, rest)) by {
            assert forall|j: int| 1 <= j < rest.len() implies frame(
                next.buffer + (#[trigger] rest.take(j)).flatten(),
            ) is Incomplete by {
                let upto = fragments.take(j + 1);
                assert(upto.drop_first() =~= rest.take(j));
                assert(upto.flatten() == first + rest.take(j).flatten());
                assert(connection.buffer + upto.flatten() =~= next.buffer + rest.take(j).flatten());
            }
        }
        lemma_fragmentation_is_invisible(next, rest);
        assert(next.buffer + rest.flatten() =~= connection.buffer + fragments.flatten());
    }
}

/// Where the framer's verdicts stand when more bytes follow, the split into
/// reads shows neither in the request nor in what is done next: reading
/// fragment by fragment until the framer decides gives the request, the stage
/// and the action that one read of all the bytes together gives.
///
/// That the verdicts do stand is a matter of the parser's grammar and is not
/// proved here: it is what this statement requires.
pub proof fn lemma_split_is_invisible_where_verdicts_stand(
    connection: ConnectionView,
    fragments: Seq<Seq<u8>>,
)
    requires
        connection.wf(),
        connection.stage == Stage::Reading,
        fragments.len() > 0,
        forall|i: int| 0 <= i < fragments.len() ==> (#[trigger] fragments[i]).len() > 0,
        connection.buffer.len() + fragments.flatten().len() <= connection.capacity,
        verdicts_stand(connection.buffer, fragments),
    ensures
        ({
            let split = deliver(connection, fragments);
            let whole = step(connection, EventView::ClientData(fragments.flatten()));
            &&& split is Some
            &&& whole is Some
            &&& split.unwrap().1 == whole.unwrap().1
            &&& split.unwrap().0.stage == whole.unwrap().0.stage
            &&& split.unwrap().0.request == whole.unwrap().0.request
        }),
    decreases fragments.len(),
{
    let first = fragments[0];
    let rest = fragments.skip(1);
    lemma_flatten_first(fragments);
    if fragments.len() == 1 {
        assert(rest.flatten() =~= Seq::<u8>::empty());
        assert(fragments.flatten() =~= first);
    } else {
        assert(rest[0].len() > 0) by {
            assert(rest[0] == fragments[1]);
        }
        lemma_flatten_first(rest);
        let taken = connection.buffer + first;
        assert(taken + rest.flatten() =~= connection.buffer + fragments.flatten());
        assert(verdict_stands(taken, rest.flatten())) by {
            let one = fragments.take(1);
            one.lemma_flatten_one_element();
            assert(one.first() == first);
            assert(verdict_stands(connection.buffer + one.flatten(), fragments.skip(1).flatten()));
        }
        if frame(taken) is Incomplete {
            let next = ConnectionView { buffer: taken, ..connection };
            assert forall|i: int| 0 <= i < rest.len() implies (#[trigger] rest[i]).len() > 0 by {
                assert(rest[i] == fragments[i + 1]);
            }
            assert(verdicts_stand(next.buffer, rest)) by {
                assert forall|j: int| 1 <= j < rest.len() implies verdict_stands(
                    next.buffer + (#[trigger] rest.take(j)).flatten(),
                    rest.skip(j).flatten(),
                ) by {
                    let upto = fragments.take(j + 1);
                    assert(upto.drop_first() =~= rest.take(j));
                    assert(upto.flatten() == first + rest.take(j).flatten());
                    assert(connection.buffer + upto.flatten() =~= next.buffer + rest.take(
                        j,
                    ).flatten());
                    assert(fragments.skip(j + 1) =~= rest.skip(j));
                    assert(verdict_stands(
                        connection.buffer + upto.flatten(),
                        fragments.skip(j + 1).flatten(),
                    ));
                }
            }
            lemma_split_is_invisible_where_verdicts_stand(next, rest);
        }
    }
}

/// A head that the framer accepts and that fits the buffer always completes,
/// however it is split into reads, where the framer's verdicts stand: the
/// request is held and the upstream is asked for.
pub proof fn lemma_valid_head_completes(
    connection: ConnectionView,
    fragments: Seq<Seq<u8>>,
    request: RequestView,
    consumed: nat,
)
    requires
        connection.wf(),
        connection.stage == Stage::Reading,
        fragments.len() > 0,
        forall|i: int| 0 <= i < fragments.len() ==> (#[trigger] fragments[i]).len() > 0,
        connection.buffer.len() + fragments.flatten().len() <= connection.capacity,
        verdicts_stand(connection.buffer, fragments),
        frame(connection.buffer + fragments.flatten()) == (Framing::Complete { request, consumed }),
    ensures
        deliver(connection, fragments) matches Some((next, action)) && {
            &&& action == ActionView::ConnectUpstream
            &&& next.stage == Stage::Parsed
            &&& next.request == Some(request)
        },
        incomplete_before_last(connection.buffer, fragments) ==> feed(connection, fragments)
            == Some(
            (
                ConnectionView {
                    stage: Stage::Parsed,
                    buffer: (connection.buffer + fragments.flatten()).skip(consumed as int),
                    request: Some(request),
                    ..connection
                },
                ActionView::ConnectUpstream,
            ),
        ),
{
    lemma_split_is_invisible_where_verdicts_stand(connection, fragments);
    lemma_flatten_first(fragments);
    if incomplete_before_last(connection.buffer, fragments) {
        lemma_fragmentation_is_invisible(connection, fragments);
    }
}

/// A head that is still incomplete when the buffer is full is answered with
/// 413, however it was split into reads, where the framer's verdicts stand.
pub proof fn lemma_full_buffer_is_answered(connection: ConnectionView, fragments: Seq<Seq<u8>>)
    requires
        connection.wf(),
        connection.stage == Stage::Reading,
        fragments.len() > 0,
        forall|i: int| 0 <= i < fragments.len() ==> (#[trigger] fragments[i]).len() > 0,
        connection.buffer.len() + fragments.flatten().len() == connection.capacity,
        verdicts_stand(connection.buffer, fragments),
        frame(connection.buffer + fragments.flatten()) is Incomplete,
    ensures
        deliver(connection, fragments) matches Some((next, action)) && {
            &&& action == (ActionView::Reject {
                response: response_wire(SyntheticStatus::PayloadTooLarge),
                error: ProxyError::BufferExhausted,
            })
            &&& next.stage == Stage::TooLarge
            &&& next.request is None
        },
{
    lemma_split_is_invisible_where_verdicts_stand(connection, fragments);
    lemma_flatten_first(fragments);
}

/// Reading never goes on for ever: every read that is taken in uses up room
/// in the buffer, so no more reads are taken in than the buffer had room for,
/// and a connection that is still reading after them has room left.
pub proof fn lemma_reads_are_bounded(connection: ConnectionView, fragments: Seq<Seq<u8>>)
    requires
        connection.wf(),
        feed(connection, fragments) is Some,
    ensures
        fragments.len() <= fragments.flatten().len() <= connection.room(),
        feed(connection, fragments).unwrap().0.stage == Stage::Reading ==> fragments.flatten().len()
            < connection.room(),
    decreases fragments.len(),
{
    lemma_flatten_first(fragments);
    let (next, action) = step(connection, EventView::ClientData(fragments[0])).unwrap();
    let rest = fragments.skip(1);
    if fragments.len() == 1 {
        assert(rest.flatten() =~= Seq::<u8>::empty());
    } else {
        assert(step(next, EventView::ClientData(rest[0])) is Some) by {
            reveal_with_fuel(feed, 2);
        }
        lemma_step_keeps_well_formed(connection, EventView::ClientData(fragments[0]));
        lemma_reads_are_bounded(next, rest);
    }
}

/// A read is asked for only while there is room, and for no more than the
/// room that is left.
pub proof fn lemma_read_fits_the_room(connection: ConnectionView, event: EventView)
    requires
        connection.wf(),
        step(connection, event) matches Some((_, action)) && action is ReadClient,
    ensures
        ({
            let (next, action) = step(connection, event).unwrap();
            &&& next.stage == Stage::Reading
            &&& frame(next.buffer) is Incomplete
            &&& 1 <= action->max == next.room()
        }),
{
}

/// A malformed head, one with too many header lines among them, is answered
/// with one 400 and ends the connection: nothing of it is held, and whatever
/// is reported afterwards, the 400 is all that is ever asked for, so no
/// upstream is connected.
pub proof fn lemma_malformed_is_answered(
    connection: ConnectionView,
    event: EventView,
    fault: ParseFault,
    later: Seq<EventView>,
)
    requires
        connection.stage == Stage::Reading,
        match event {
            EventView::Accepted => frame(connection.buffer) == Framing::Malformed(fault),
            EventView::ClientData(data) => {
                &&& 0 < data.len() <= connection.room()
                &&& frame(connection.buffer + data) == Framing::Malformed(fault)
            },
            _ => false,
        },
    ensures
        step(connection, event) matches Some((next, action)) && {
            &&& next.stage == Stage::BadRequest
            &&& next.request == connection.request
            &&& action == (ActionView::Reject {
                response: response_wire(SyntheticStatus::BadRequest),
                error: ProxyError::Malformed(fault),
            })
        },
        run(connection, seq![event] + later) == seq![
            ActionView::Reject {
                response: response_wire(SyntheticStatus::BadRequest),
                error: ProxyError::Malformed(fault),
            },
        ],
{
    lemma_ending_is_last(connection, event, later);
}

/// The headers of a request are the leading filled slots, one for one and in
/// their order: none is added, none is left out, and there are never more of
/// them than slots.
pub proof fn lemma_headers_are_not_truncated(raw: RawHeadView)
    ensures
        request_of(raw).headers.len() == filled_count(raw.slots) <= raw.slots.len(),
        forall|i: int|
            0 <= i < request_of(raw).headers.len() ==> (#[trigger] request_of(raw).headers[i]).0
                == raw.slots[i].0,
        filled_count(raw.slots) < raw.slots.len() ==> raw.slots[filled_count(raw.slots) as int].0.len()
            == 0,
{
    lemma_filled_count_bounded(raw.slots);
    lemma_first_unfilled(raw.slots);
}

/// The slot that ends the run of filled slots, if there is one, is unfilled.
proof fn lemma_first_unfilled(slots: Seq<(Seq<char>, Seq<u8>)>)
    ensures
        filled_count(slots) <= slots.len(),
        filled_count(slots) < slots.len() ==> slots[filled_count(slots) as int].0.len() == 0,
    decreases slots.len(),
{
    if slots.len() > 0 && slots[0].0.len() > 0 {
        lemma_first_unfilled(slots.skip(1));
    }
}

/// What was buffered behind the head goes to the upstream byte for byte, once,
/// right behind the replayed head, and the relay begins only when all of it
/// has been written: a connection whose head completes, whose upstream
/// connects and whose request is written is asked for exactly these three
/// things in this order.
///
/// `consumed` is the length of the head, which for every head that the framer
/// hands out lies within the bytes.
pub proof fn lemma_residual_is_forwarded(
    connection: ConnectionView,
    event: EventView,
    bytes: Seq<u8>,
    request: RequestView,
    consumed: nat,
)
    requires
        connection.wf(),
        connection.stage == Stage::Reading,
        match event {
            EventView::Accepted => bytes == connection.buffer,
            EventView::ClientData(data) => {
                &&& 0 < data.len() <= connection.room()
                &&& bytes == connection.buffer + data
            },
            _ => false,
        },
        frame(bytes) == (Framing::Complete { request, consumed }),
        consumed <= bytes.len(),
    ensures
        ({
            let head = request_wire(request);
            let payload = head + bytes.subrange(consumed as int, bytes.len() as int);
            &&& run(
                connection,
                seq![event, EventView::UpstreamConnected, EventView::RequestForwarded],
            ) == seq![
                ActionView::ConnectUpstream,
                ActionView::ForwardRequest(payload),
                ActionView::StartRelay,
            ]
            &&& payload.len() == head.len() + (bytes.len() - consumed)
            &&& payload.subrange(0, head.len() as int) == head
            &&& payload.subrange(head.len() as int, payload.len() as int) == bytes.subrange(
                consumed as int,
                bytes.len() as int,
            )
        }),
{
    let head = request_wire(request);
    let residual = bytes.subrange(consumed as int, bytes.len() as int);
    let payload = head + residual;
    let events = seq![event, EventView::UpstreamConnected, EventView::RequestForwarded];
    let (parsed, first) = step(connection, event).unwrap();
    let (connected, second) = step(parsed, EventView::UpstreamConnected).unwrap();
    let (relaying, third) = step(connected, EventView::RequestForwarded).unwrap();
    assert(bytes.skip(consumed as int) =~= residual);
    assert(second == ActionView::ForwardRequest(payload));
    assert(payload.subrange(0, head.len() as int) =~= head);
    assert(payload.subrange(head.len() as int, payload.len() as int) =~= residual);
    let after_first = events.skip(1);
    let after_second = after_first.skip(1);
    let after_third = after_second.skip(1);
    assert(events[0] == event);
    assert(after_first[0] == EventView::UpstreamConnected);
    assert(after_second[0] == EventView::RequestForwarded);
    assert(after_third.len() == 0);
    assert(run(relaying, after_third) =~= Seq::<ActionView>::empty());
    assert(run(connected, after_second) =~= seq![third]);
    assert(run(parsed, after_first) =~= seq![second, third]);
    assert(run(connection, events) =~= seq![first, second, third]);
}

/// The upstream is written to only once it is connected, and the relay is
/// started only once the request has been written.
pub proof fn lemma_order_of_upstream_actions(connection: ConnectionView, event: EventView)
    requires
        connection.wf(),
        step(connection, event) is Some,
    ensures
        step(connection, event).unwrap().1 is ConnectUpstream ==> connection.stage
            == Stage::Reading,
        step(connection, event).unwrap().1 is ForwardRequest ==> connection.stage == Stage::Parsed
            && event is UpstreamConnected,
        step(connection, event).unwrap().1 is StartRelay ==> connection.stage
            == Stage::ConnectingUpstream && event is RequestForwarded,
{
}

/// An upstream that cannot be connected is answered with one 502, and that is
/// the end: whatever is reported afterwards, the 502 is all that is ever asked
/// for, so the request is never written.
pub proof fn lemma_connect_failure(connection: ConnectionView, later: Seq<EventView>)
    requires
        connection.wf(),
        connection.stage == Stage::Parsed,
    ensures
        step(connection, EventView::UpstreamRefused) == Some(
            (
                ConnectionView {
                    stage: Stage::UpstreamUnavailable,
                    request: None,
                    ..connection
                },
                ActionView::Reject {
                    response: response_wire(SyntheticStatus::BadGateway),
                    error: ProxyError::UpstreamUnreachable,
                },
            ),
        ),
        run(connection, seq![EventView::UpstreamRefused] + later) == seq![
            ActionView::Reject {
                response: response_wire(SyntheticStatus::BadGateway),
                error: ProxyError::UpstreamUnreachable,
            },
        ],
{
    lemma_ending_is_last(connection, EventView::UpstreamRefused, later);
}

} // verus!
