//! Draining a body stream into one contiguous byte sequence.
//!
//! The stream itself is read elsewhere; each thing it yields is handed to the
//! collector as an event. The collector decides what the body is.

use vstd::prelude::*;
use vstd::slice::slice_to_vec;

verus! {

/// What the body stream yields.
pub enum BodyEvent {
    /// The next chunk of bytes.
    Chunk(Vec<u8>),
    /// The end of the stream.
    End,
    /// A read failure, such as a connection reset before the end.
    Failure,
}

/// What a body event holds, as plain values.
pub ghost enum BodyEventView {
    Chunk(Seq<u8>),
    End,
    Failure,
}

impl View for BodyEvent {
    type V = BodyEventView;

    open spec fn view(&self) -> BodyEventView {
        match self {
            BodyEvent::Chunk(bytes) => BodyEventView::Chunk(bytes@),
            BodyEvent::End => BodyEventView::End,
            BodyEvent::Failure => BodyEventView::Failure,
        }
    }
}

/// How far the collection has come.
#[derive(Clone, Copy, Debug, PartialEq, Eq, Structural)]
pub enum CollectorStatus {
    /// More of the stream is awaited.
    Reading,
    /// The end was seen: the body is whole.
    Complete,
    /// The stream failed: there is no body.
    Failed,
}

/// The state of a collection, as plain values: the status and the bytes
/// gathered so far.
pub ghost struct CollectorView {
    pub status: CollectorStatus,
    pub bytes: Seq<u8>,
}

/// The state after one more event. While reading, a chunk is appended whole,
/// the end completes the body, and a failure discards it. A finished
/// collection, complete or failed, is changed by nothing.
pub open spec fn after(state: CollectorView, event: BodyEventView) -> CollectorView {
    match state.status {
        CollectorStatus::Reading => match event {
            BodyEventView::Chunk(bytes) => CollectorView {
                status: CollectorStatus::Reading,
                bytes: state.bytes + bytes,
            },
            BodyEventView::End => CollectorView { status: CollectorStatus::Complete, ..state },
            BodyEventView::Failure => CollectorView {
                status: CollectorStatus::Failed,
                bytes: Seq::empty(),
            },
        },
        _ => state,
    }
}

/// The state after a sequence of events, from the first to the last.
pub open spec fn after_all(state: CollectorView, events: Seq<BodyEventView>) -> CollectorView
    decreases events.len(),
{
    if events.len() == 0 {
        state
    } else {
        after(after_all(state, events.drop_last()), events.last())
    }
}

/// All chunks joined in their order.
pub open spec fn joined(chunks: Seq<Seq<u8>>) -> Seq<u8>
    decreases chunks.len(),
{
    if chunks.len() == 0 {
        Seq::empty()
    } else {
        joined(chunks.drop_last()) + chunks.last()
    }
}

/// The events of a stream that yields `chunks` and then ends.
pub open spec fn whole_stream(chunks: Seq<Seq<u8>>) -> Seq<BodyEventView> {
    Seq::new(chunks.len() as nat, |i: int| BodyEventView::Chunk(chunks[i])).push(
        BodyEventView::End,
    )
}

/// The state of a new collection: reading, with nothing gathered.
pub open spec fn initial() -> CollectorView {
    CollectorView { status: CollectorStatus::Reading, bytes: Seq::empty() }
}

/// Collects a body from the events of its stream. No size limit is imposed.
pub struct BodyCollector {
    status: CollectorStatus,
    buffer: Vec<u8>,
}

impl View for BodyCollector {
    type V = CollectorView;

    closed spec fn view(&self) -> CollectorView {
        CollectorView { status: self.status, bytes: self.buffer@ }
    }
}

impl BodyCollector {
    /// A collection that has seen nothing yet.
    pub fn new() -> (collector: BodyCollector)
        ensures
            collector@ == initial(),
    {
        BodyCollector { status: CollectorStatus::Reading, buffer: Vec::new() }
    }

    /// The status of the collection.
    pub fn status(&self) -> (status: CollectorStatus)
        ensures
            status == self@.status,
    {
        self.status
    }

    /// Takes one event of the stream.
    pub fn accept(&mut self, event: BodyEvent)
        ensures
            final(self)@ == after(old(self)@, event@),
    {
        match self.status {
            CollectorStatus::Reading => match event {
                BodyEvent::Chunk(bytes) => {
                    let mut chunk = bytes;
                    self.buffer.append(&mut chunk);
                },
                BodyEvent::End => {
                    self.status = CollectorStatus::Complete;
                },
                BodyEvent::Failure => {
                    self.status = CollectorStatus::Failed;
                    self.buffer = Vec::new();
                },
            },
            _ => {},
        }
    }

    /// Ends the collection: the whole body where the end of the stream was
    /// seen, and nothing where the stream failed or has not ended yet.
    pub fn into_body(self) -> (body: Option<Vec<u8>>)
        ensures
            match body {
                Some(bytes) => self@.status == CollectorStatus::Complete && bytes@ == self@.bytes,
                None => self@.status != CollectorStatus::Complete,
            },
    {
        match self.status {
            CollectorStatus::Complete => Some(self.buffer),
            _ => None,
        }
    }
}

/// The events of a stream as plain values, in their order.
pub open spec fn event_views(events: Seq<BodyEvent>) -> Seq<BodyEventView> {
    Seq::new(events.len(), |i: int| events[i]@)
}

/// The body that a finished collection gives: the gathered bytes where the
/// end of the stream was seen, and none otherwise.
pub open spec fn body_of(state: CollectorView) -> Option<Seq<u8>> {
    if state.status == CollectorStatus::Complete {
        Some(state.bytes)
    } else {
        None
    }
}

/// Collects the body from everything that a stream has yielded, in order.
pub fn collect_body(events: &Vec<BodyEvent>) -> (body: Option<Vec<u8>>)
    ensures
        match body {
            Some(bytes) => body_of(after_all(initial(), event_views(events@))) == Some(bytes@),
            None => body_of(after_all(initial(), event_views(events@))) is None,
        },
{
    let ghost views = event_views(events@);
    let mut collector = BodyCollector::new();
    let mut i: usize = 0;
    while i < events.len()
        invariant
            i <= events.len(),
            views == event_views(events@),
            collector@ == after_all(initial(), views.take(i as int)),
        decreases events.len() - i,
    {
        let event = match &events[i] {
            BodyEvent::Chunk(bytes) => BodyEvent::Chunk(slice_to_vec(bytes.as_slice())),
            BodyEvent::End => BodyEvent::End,
            BodyEvent::Failure => BodyEvent::Failure,
        };
        assert(event@ == views[i as int]);
        assert(views.take(i + 1).drop_last() =~= views.take(i as int));
        collector.accept(event);
        i += 1;
    }
    assert(views.take(i as int) =~= views);
    collector.into_body()
}

/// A stream that yields its chunks and then ends gives exactly the chunks,
/// joined in order: nothing is cut off, whatever the size, and a stream
/// without chunks gives the empty body.
pub proof fn lemma_whole_stream_collects_all(chunks: Seq<Seq<u8>>)
    ensures
        after_all(initial(), whole_stream(chunks)) == (CollectorView {
            status: CollectorStatus::Complete,
            bytes: joined(chunks),
        }),
{
    let events = whole_stream(chunks);
    assert(events.drop_last() =~= Seq::new(
        chunks.len() as nat,
        |i: int| BodyEventView::Chunk(chunks[i]),
    ));
    lemma_chunks_are_appended(chunks);
}

/// While the stream yields chunks, the collection is reading and holds the
/// chunks so far, joined in order.
pub proof fn lemma_chunks_are_appended(chunks: Seq<Seq<u8>>)
    ensures
        after_all(
            initial(),
            Seq::new(chunks.len() as nat, |i: int| BodyEventView::Chunk(chunks[i])),
        ) == (CollectorView { status: CollectorStatus::Reading, bytes: joined(chunks) }),
    decreases chunks.len(),
{
    let events = Seq::new(chunks.len() as nat, |i: int| BodyEventView::Chunk(chunks[i]));
    if chunks.len() > 0 {
        let shorter = chunks.drop_last();
        lemma_chunks_are_appended(shorter);
        assert(events.drop_last() =~= Seq::new(
            shorter.len() as nat,
            |i: int| BodyEventView::Chunk(shorter[i]),
        ));
        assert(events.last() == BodyEventView::Chunk(chunks.last()));
    }
}

/// A failure anywhere in the stream is never taken for the end of the body:
/// once it was seen, the collection stays failed whatever follows.
pub proof fn lemma_failure_is_final(state: CollectorView, events: Seq<BodyEventView>)
    requires
        state.status == CollectorStatus::Failed,
    ensures
        after_all(state, events) == state,
    decreases events.len(),
{
    if events.len() > 0 {
        lemma_failure_is_final(state, events.drop_last());
    }
}

} // verus!
