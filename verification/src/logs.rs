//! Log streaming: stripping the multiplexing header the runtime
//! prepends to each raw log chunk, decoding the remainder as text,
//! and the per-container session state machine that republishes
//! lines as events.
//!
//! A session moves through Idle, Streaming, Stopping, Ended and
//! Failed.  While streaming, every inbound frame becomes one Data
//! event, in arrival order; a read error becomes one Error event and
//! ends the session; a clean close becomes one Ended event.  An
//! explicit stop request announces itself with a StopRequested event
//! and moves the session to Stopping, after which nothing more is
//! published and the read loop is expected to wind the feed down.

use vstd::prelude::*;

verus! {

/// Length of the framing header a multiplexed log transport prepends
/// to each chunk.
pub const FRAME_HEADER_LEN: usize = 8;

/// The bytes of a frame once the framing header is removed: frames
/// longer than the header lose their first `FRAME_HEADER_LEN` bytes;
/// shorter frames pass through unchanged as a defensive fallback.
pub open spec fn spec_strip_frame(b: Seq<u8>) -> Seq<u8> {
    if b.len() > FRAME_HEADER_LEN {
        b.skip(FRAME_HEADER_LEN as int)
    } else {
        b
    }
}

/// Remove the fixed framing header from one raw log frame.
pub fn strip_frame(bytes: &[u8]) -> (r: Vec<u8>)
    ensures
        r@ == spec_strip_frame(bytes@),
{
    if bytes.len() > FRAME_HEADER_LEN {
        let sub = vstd::slice::slice_subrange(bytes, FRAME_HEADER_LEN, bytes.len());
        vstd::slice::slice_to_vec(sub)
    } else {
        vstd::slice::slice_to_vec(bytes)
    }
}

/// The text that lossy UTF-8 decoding yields for a given byte
/// sequence.  The decoding is a function of the bytes alone.
pub uninterp spec fn lossy_decode(b: Seq<u8>) -> Seq<char>;

/// Relies on `String::from_utf8_lossy`: the result depends on the
/// bytes alone; an empty input decodes to the empty string; bytes
/// that are all ASCII are valid UTF-8 and decode to themselves.
#[verifier::external_body]
fn utf8_lossy(bytes: &[u8]) -> (r: String)
    ensures
        r@ == lossy_decode(bytes@),
        bytes@.len() == 0 ==> r@.len() == 0,
        (forall|i: int| 0 <= i < bytes@.len() ==> bytes@[i] < 128) ==> r@ == bytes@.map(
            |i: int, b: u8| b as char,
        ),
{
    String::from_utf8_lossy(bytes).into_owned()
}

/// The text published for one raw log frame: the frame with its
/// framing header stripped, decoded lossily as UTF-8.
pub open spec fn spec_decoded_frame(b: Seq<u8>) -> Seq<char> {
    lossy_decode(spec_strip_frame(b))
}

/// Strip the framing header from one raw frame and decode the rest
/// as text, replacing invalid byte sequences rather than failing.
pub fn decode_frame(bytes: &[u8]) -> (r: String)
    ensures
        r@ == spec_decoded_frame(bytes@),
{
    let stripped = strip_frame(bytes);
    utf8_lossy(stripped.as_slice())
}

/// The text of a whole log collection: each frame stripped and
/// decoded, concatenated in arrival order.
pub open spec fn spec_assembled(frames: Seq<Seq<u8>>) -> Seq<char>
    decreases frames.len(),
{
    if frames.len() == 0 {
        Seq::empty()
    } else {
        spec_assembled(frames.drop_last()) + spec_decoded_frame(frames.last())
    }
}

/// Concatenate a collected sequence of raw log frames into one text,
/// stripping each frame's header first.
pub fn assemble_logs(frames: &Vec<Vec<u8>>) -> (r: String)
    ensures
        r@ == spec_assembled(frames.deep_view()),
{
    let ghost all = frames.deep_view();
    let mut r = String::new();
    let mut i: usize = 0;
    proof {
        assert(all.take(0) =~= Seq::<Seq<u8>>::empty());
    }
    while i < frames.len()
        invariant
            i <= frames.len(),
            all == frames.deep_view(),
            r@ == spec_assembled(all.take(i as int)),
        decreases frames.len() - i,
    {
        proof {
            assert(all.take(i + 1).drop_last() =~= all.take(i as int));
            assert(all.take(i + 1).last() == all[i as int]);
            assert(all[i as int] == frames@[i as int]@);
        }
        let line = decode_frame(frames[i].as_slice());
        r.append(line.as_str());
        i = i + 1;
    }
    proof {
        assert(all.take(frames@.len() as int) =~= all);
    }
    r
}

/// One event published to the subscribers of a container's log
/// stream.
#[derive(Debug)]
pub enum LogEvent {
    /// One decoded log line.
    Data(String),
    /// The description of the read failure that ended the stream.
    Error(String),
    /// The feed closed cleanly.
    Ended,
    /// An explicit stop was requested.
    StopRequested,
}

/// The mathematical shape of a published event.
pub enum LogEventModel {
    Data(Seq<char>),
    Error(Seq<char>),
    Ended,
    StopRequested,
}

impl DeepView for LogEvent {
    type V = LogEventModel;

    open spec fn deep_view(&self) -> LogEventModel {
        match self {
            LogEvent::Data(s) => LogEventModel::Data(s@),
            LogEvent::Error(s) => LogEventModel::Error(s@),
            LogEvent::Ended => LogEventModel::Ended,
            LogEvent::StopRequested => LogEventModel::StopRequested,
        }
    }
}

/// One item a live log feed can deliver.
#[derive(Debug)]
pub enum FeedItem {
    /// A raw framed chunk.
    Chunk(Vec<u8>),
    /// A read failure, with its description.
    ReadError(String),
    /// The feed closed cleanly.
    Closed,
}

/// The mathematical shape of a feed item.
pub enum FeedItemModel {
    Chunk(Seq<u8>),
    ReadError(Seq<char>),
    Closed,
}

impl DeepView for FeedItem {
    type V = FeedItemModel;

    open spec fn deep_view(&self) -> FeedItemModel {
        match self {
            FeedItem::Chunk(b) => FeedItemModel::Chunk(b@),
            FeedItem::ReadError(m) => FeedItemModel::ReadError(m@),
            FeedItem::Closed => FeedItemModel::Closed,
        }
    }
}

/// The states of one container's log-stream session.
#[derive(Clone, Copy, Debug, PartialEq, Eq, Structural)]
pub enum SessionState {
    /// No feed opened yet.
    Idle,
    /// The feed is open and frames are republished as they arrive.
    Streaming,
    /// A stop was requested; the read loop is winding down.
    Stopping,
    /// The feed is finished.
    Ended,
    /// A read error ended the feed.
    Failed,
}

/// One container's log-stream session: the identity of the stream
/// and where its state machine stands.
pub struct LogStreamSession {
    pub container_id: String,
    pub state: SessionState,
}

impl LogStreamSession {
    /// A fresh, idle session for one container.
    pub fn new(container_id: String) -> (s: LogStreamSession)
        ensures
            s.container_id@ == container_id@,
            s.state is Idle,
    {
        LogStreamSession { container_id, state: SessionState::Idle }
    }

    /// Open the feed: the session starts streaming.
    pub fn start(&mut self)
        requires
            old(self).state is Idle,
        ensures
            final(self).container_id == old(self).container_id,
            final(self).state is Streaming,
    {
        self.state = SessionState::Streaming;
    }

    /// Is the read loop expected to keep pulling frames?
    pub fn should_read(&self) -> (r: bool)
        ensures
            r == (self.state is Streaming),
    {
        match self.state {
            SessionState::Streaming => true,
            _ => false,
        }
    }

    /// One raw frame arrived.  While streaming it is republished as
    /// one Data event carrying the stripped, decoded line; in every
    /// other state it is dropped.
    pub fn on_chunk(&mut self, bytes: &[u8]) -> (ev: Option<LogEvent>)
        ensures
            final(self).container_id == old(self).container_id,
            final(self).state == old(self).state,
            old(self).state is Streaming ==> (ev matches Some(e) && e.deep_view()
                == LogEventModel::Data(spec_decoded_frame(bytes@))),
            !(old(self).state is Streaming) ==> ev is None,
    {
        match self.state {
            SessionState::Streaming => Some(LogEvent::Data(decode_frame(bytes))),
            _ => None,
        }
    }

    /// The feed reported a read error.  While streaming the session
    /// fails and publishes exactly one Error event; in every other
    /// state nothing happens.
    pub fn on_error(&mut self, message: String) -> (ev: Option<LogEvent>)
        ensures
            final(self).container_id == old(self).container_id,
            old(self).state is Streaming ==> (final(self).state is Failed && (ev matches Some(e)
                && e.deep_view() == LogEventModel::Error(message@))),
            !(old(self).state is Streaming) ==> final(self).state == old(self).state && ev is None,
    {
        match self.state {
            SessionState::Streaming => {
                self.state = SessionState::Failed;
                Some(LogEvent::Error(message))
            },
            _ => None,
        }
    }

    /// The feed closed.  A streaming session ends and publishes one
    /// Ended event; a stopping session ends silently — its
    /// subscribers already saw the stop announcement; any other
    /// state is unchanged.
    pub fn on_close(&mut self) -> (ev: Option<LogEvent>)
        ensures
            final(self).container_id == old(self).container_id,
            old(self).state is Streaming ==> (final(self).state is Ended && (ev matches Some(e)
                && e.deep_view() == LogEventModel::Ended)),
            old(self).state is Stopping ==> final(self).state is Ended && ev is None,
            !(old(self).state is Streaming) && !(old(self).state is Stopping) ==> (final(
                self).state == old(self).state && ev is None),
    {
        match self.state {
            SessionState::Streaming => {
                self.state = SessionState::Ended;
                Some(LogEvent::Ended)
            },
            SessionState::Stopping => {
                self.state = SessionState::Ended;
                None
            },
            _ => None,
        }
    }

    /// An explicit stop request: announced immediately with a
    /// StopRequested event, from any state; the read loop must then
    /// stop pulling frames, so Stopping reliably reaches Ended.
    pub fn request_stop(&mut self) -> (ev: LogEvent)
        ensures
            final(self).container_id == old(self).container_id,
            final(self).state is Stopping,
            ev.deep_view() == LogEventModel::StopRequested,
    {
        self.state = SessionState::Stopping;
        LogEvent::StopRequested
    }
}

/// The events a streaming session publishes for a feed delivered in
/// order: one Data event per frame until the feed errs or closes,
/// then exactly one Error or Ended event, and nothing afterward.
pub open spec fn spec_feed_events(items: Seq<FeedItemModel>) -> Seq<LogEventModel>
    decreases items.len(),
{
    if items.len() == 0 {
        Seq::empty()
    } else {
        match items[0] {
            FeedItemModel::Chunk(b) => seq![LogEventModel::Data(spec_decoded_frame(b))]
                + spec_feed_events(items.drop_first()),
            FeedItemModel::ReadError(m) => seq![LogEventModel::Error(m)],
            FeedItemModel::Closed => seq![LogEventModel::Ended],
        }
    }
}

/// Run one freshly started session over a whole feed and collect
/// every event it publishes, in publication order.
pub fn process_feed(container_id: String, items: &Vec<FeedItem>) -> (evs: Vec<LogEvent>)
    ensures
        evs.deep_view() == spec_feed_events(items.deep_view()),
{
    let ghost all = items.deep_view();
    let mut session = LogStreamSession::new(container_id);
    session.start();
    let mut evs: Vec<LogEvent> = Vec::new();
    let mut i: usize = 0;
    proof {
        assert(all.skip(0) =~= all);
        assert(evs.deep_view() + spec_feed_events(all) =~= spec_feed_events(all));
    }
    while i < items.len() && session.should_read()
        invariant_except_break
            i <= items.len(),
            all == items.deep_view(),
            session.state is Streaming,
            spec_feed_events(all) == evs.deep_view() + spec_feed_events(all.skip(i as int)),
        ensures
            evs.deep_view() == spec_feed_events(all),
        decreases items.len() - i,
    {
        let ghost prev = evs.deep_view();
        proof {
            assert(all.skip(i as int)[0] == all[i as int]);
            assert(all.skip(i as int).drop_first() =~= all.skip(i + 1));
        }
        match &items[i] {
            FeedItem::Chunk(b) => {
                let ev = session.on_chunk(b.as_slice());
                match ev {
                    Some(e) => {
                        evs.push(e);
                        proof {
                            assert(evs.deep_view() =~= prev + seq![
                                LogEventModel::Data(spec_decoded_frame(all[i as int]->Chunk_0)),
                            ]);
                            assert(prev + (seq![
                                LogEventModel::Data(spec_decoded_frame(all[i as int]->Chunk_0)),
                            ] + spec_feed_events(all.skip(i + 1))) =~= evs.deep_view()
                                + spec_feed_events(all.skip(i + 1)));
                        }
                    },
                    None => {
                        proof {
                            assert(false);
                        }
                    },
                }
            },
            FeedItem::ReadError(m) => {
                let ev = session.on_error(m.clone());
                match ev {
                    Some(e) => {
                        evs.push(e);
                        proof {
                            assert(evs.deep_view() =~= prev + seq![
                                LogEventModel::Error(all[i as int]->ReadError_0),
                            ]);
                        }
                    },
                    None => {
                        proof {
                            assert(false);
                        }
                    },
                }
                proof {
                    assert(evs.deep_view() =~= spec_feed_events(all));
                }
                break ;
            },
            FeedItem::Closed => {
                let ev = session.on_close();
                match ev {
                    Some(e) => {
                        evs.push(e);
                        proof {
                            assert(evs.deep_view() =~= prev + seq![LogEventModel::Ended]);
                        }
                    },
                    None => {
                        proof {
                            assert(false);
                        }
                    },
                }
                proof {
                    assert(evs.deep_view() =~= spec_feed_events(all));
                }
                break ;
            },
        }
        i = i + 1;
    }
    proof {
        if i == items@.len() {
            assert(all.skip(i as int) =~= Seq::<FeedItemModel>::empty());
            assert(evs.deep_view() + spec_feed_events(all.skip(i as int)) =~= evs.deep_view());
        }
    }
    evs
}

/// The stable name of the notification topic an event is published
/// on for a given container id, so the UI can subscribe and
/// unsubscribe deterministically.
pub fn event_topic(ev: &LogEvent, container_id: &str) -> (r: String)
    ensures
        ev matches LogEvent::Data(_) ==> r@ == "log-stream-"@ + container_id@,
        ev matches LogEvent::Error(_) ==> r@ == "log-stream-error-"@ + container_id@,
        ev is Ended ==> r@ == "log-stream-ended-"@ + container_id@,
        ev is StopRequested ==> r@ == "log-stream-stop-"@ + container_id@,
{
    let mut topic = match ev {
        LogEvent::Data(_) => String::from_str("log-stream-"),
        LogEvent::Error(_) => String::from_str("log-stream-error-"),
        LogEvent::Ended => String::from_str("log-stream-ended-"),
        LogEvent::StopRequested => String::from_str("log-stream-stop-"),
    };
    topic.append(container_id);
    topic
}

} // verus!
