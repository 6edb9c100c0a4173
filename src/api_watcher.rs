//! A watcher atop of the Kubernetes API: prepares one watch request, classifies
//! the response by its status alone, and decodes the body of a successful
//! response into watch events.
use vstd::prelude::*;
use k8s_openapi::apimachinery::pkg::apis::meta::v1::WatchEvent;
use k8s_openapi::{RequestError, ResponseError};
use crate::framing::{lemma_two_chunks, scan_from, FrameBuffer};
use crate::k8s::{decode_frame, opt_view, pod_watch_request_builds, watch_event_end, watch_pods_request};

verus! {

/// HTTP status `200 OK`.
pub const STATUS_OK: u16 = 200;

/// HTTP status `410 Gone`: the requested resume point is no longer served.
pub const STATUS_GONE: u16 = 410;

/// The parameters of one watch call, built anew for each attempt.
#[derive(Debug)]
pub struct WatchRequest {
    /// The resource version to resume from; from the beginning of history if absent.
    pub resource_version: Option<String>,
    pub label_selector: Option<String>,
    pub field_selector: Option<String>,
    /// Asks the server to pretty-print its output.
    pub pretty: Option<String>,
    pub timeout_seconds: Option<i64>,
    pub allow_watch_bookmarks: Option<bool>,
}

/// Errors that can occur while invoking a watch.
#[derive(Debug)]
pub enum Error {
    /// The call-specific request builder failed.
    RequestPreparation { source: RequestError },
    /// The HTTP client failed to perform the request; the transport's message.
    Request { message: String },
    /// The HTTP response has a status other than `200 OK`.
    BadStatus { status: u16 },
}

/// The outer layer of an invocation error, which a driver acts on without
/// looking at the cause it carries.
#[derive(Debug)]
pub enum InvocationError<E> {
    /// The resume point is gone: the driver must relist before watching again.
    Desync { source: E },
    /// Any other failure; the driver applies its own retry policy.
    Other { source: E },
}

impl From<Error> for InvocationError<Error> {
    fn from(source: Error) -> (r: InvocationError<Error>) {
        InvocationError::Other { source }
    }
}

impl vstd::std_specs::convert::FromSpecImpl<Error> for InvocationError<Error> {
    open spec fn obeys_from_spec() -> bool {
        true
    }

    open spec fn from_spec(source: Error) -> InvocationError<Error> {
        InvocationError::Other { source }
    }
}

/// Errors of a watch body once the stream is live.
#[derive(Debug)]
pub enum StreamError {
    /// Reading the body failed; the transport's message. The stream ends here.
    Reading { message: String },
    /// One frame did not deserialize as a watch event. The stream goes on.
    Parsing { source: ResponseError },
    /// One frame held more than a watch event: the bytes after it. The
    /// stream goes on.
    TrailingData { data: Vec<u8> },
    /// The body ended inside a frame; the bytes of that frame.
    UnparsedDataUponCompletion { data: Vec<u8> },
}

/// What an invocation yields, given the response status, or the transport's
/// message where no response came.
pub open spec fn is_outcome_of<S>(
    response: Result<u16, String>,
    r: Result<S, InvocationError<Error>>,
) -> bool {
    match response {
        Err(m) => r matches Err(InvocationError::Other { source: Error::Request { message } })
            && message@ == m@,
        Ok(s) => if s == STATUS_OK {
            r is Ok
        } else if s == STATUS_GONE {
            r matches Err(InvocationError::Desync { source: Error::BadStatus { status } })
                && status == s
        } else {
            r matches Err(InvocationError::Other { source: Error::BadStatus { status } })
                && status == s
        },
    }
}

/// The bytes that JSON counts as whitespace (a frame holds no newline).
pub open spec fn is_json_space(b: u8) -> bool {
    b == 32 || b == 9 || b == 13 || b == 10
}

pub open spec fn all_space(s: Seq<u8>) -> bool {
    forall|i: int| 0 <= i < s.len() ==> is_json_space(#[trigger] s[i])
}

/// The frames that hold more than whitespace: the others are skipped.
pub open spec fn nonblank(frames: Seq<Seq<u8>>) -> Seq<Seq<u8>> {
    frames.filter(|f: Seq<u8>| !all_space(f))
}

/// Whether `item` is the decoding of `frame`: its watch event where the frame
/// holds one event and nothing but whitespace after it; a parsing error where
/// it holds none; the bytes after the event where there are any others.
pub open spec fn decodes_frame(
    item: Result<WatchEvent<k8s_openapi::api::core::v1::Pod>, StreamError>,
    frame: Seq<u8>,
) -> bool {
    match watch_event_end(frame) {
        None => item matches Err(StreamError::Parsing { .. }),
        Some(n) => if all_space(frame.skip(n as int)) {
            item is Ok
        } else {
            item matches Err(StreamError::TrailingData { data }) && data@ == frame.skip(n as int)
        },
    }
}

/// Whether `items` are the decoded non-blank `frames`, one for one and in order.
pub open spec fn decodes_frames(
    items: Seq<Result<WatchEvent<k8s_openapi::api::core::v1::Pod>, StreamError>>,
    frames: Seq<Seq<u8>>,
) -> bool {
    &&& items.len() == nonblank(frames).len()
    &&& forall|i: int| 0 <= i < items.len() ==> decodes_frame(#[trigger] items[i], nonblank(frames)[i])
}

/// A body cut in two anywhere, even inside a frame, hands the decoder the
/// same non-blank frames, in the same order, as the body whole, and leaves
/// the same bytes open.
pub proof fn lemma_decoder_ignores_chunking(p: Seq<u8>, a: Seq<u8>, b: Seq<u8>)
    ensures
        ({
            let first = scan_from((Seq::empty(), p), a);
            let second = scan_from((Seq::empty(), first.1), b);
            let whole = scan_from((Seq::empty(), p), a + b);
            &&& nonblank(first.0) + nonblank(second.0) == nonblank(whole.0)
            &&& second.1 == whole.1
        }),
{
    let first = scan_from((Seq::empty(), p), a);
    let second = scan_from((Seq::empty(), first.1), b);
    lemma_two_chunks(p, a, b);
    Seq::filter_distributes_over_add(first.0, second.0, |f: Seq<u8>| !all_space(f));
}

/// Whether `s[start..]` is all whitespace.
fn all_space_from(s: &[u8], start: usize) -> (r: bool)
    requires
        start <= s@.len(),
    ensures
        r == all_space(s@.skip(start as int)),
{
    let mut i: usize = start;
    while i < s.len()
        invariant
            start <= i <= s@.len(),
            forall|j: int| start <= j < i ==> is_json_space(#[trigger] s@[j]),
        decreases s@.len() - i,
    {
        let b = s[i];
        if !(b == 32 || b == 9 || b == 13 || b == 10) {
            assert(s@.skip(start as int)[i - start] == b);
            return false;
        }
        i += 1;
    }
    assert forall|j: int| 0 <= j < s@.skip(start as int).len() implies is_json_space(
        #[trigger] s@.skip(start as int)[j],
    ) by {
        assert(s@.skip(start as int)[j] == s@[start + j]);
    }
    true
}

/// The bytes `s[start..]`, copied.
fn copy_from(s: &[u8], start: usize) -> (r: Vec<u8>)
    requires
        start <= s@.len(),
    ensures
        r@ == s@.skip(start as int),
{
    let mut out: Vec<u8> = Vec::new();
    let mut i: usize = start;
    while i < s.len()
        invariant
            start <= i <= s@.len(),
            out@ == s@.subrange(start as int, i as int),
        decreases s@.len() - i,
    {
        out.push(s[i]);
        assert(s@.subrange(start as int, i + 1) == s@.subrange(start as int, i as int).push(s@[i as int]));
        i += 1;
    }
    out
}

/// Decodes one non-blank frame.
fn decode_one(frame: &[u8]) -> (r: Result<WatchEvent<k8s_openapi::api::core::v1::Pod>, StreamError>)
    ensures
        decodes_frame(r, frame@),
{
    match decode_frame(frame) {
        Err(source) => Err(StreamError::Parsing { source }),
        Ok(decoded) => {
            let (event, n) = decoded.unwrap();
            if all_space_from(frame, n) {
                Ok(event)
            } else {
                Err(StreamError::TrailingData { data: copy_from(frame, n) })
            }
        },
    }
}

/// The decoder of a live watch body. It exists only for a response whose
/// status was `200 OK`.
pub struct BodyDecoder {
    frames: FrameBuffer,
    ended: bool,
}

/// What reading a watch body gave back.
pub enum BodyEvent {
    /// The next chunk of the body.
    Data(Vec<u8>),
    /// Reading failed: the connection dropped. The transport's message.
    Failed(String),
    /// The body is over.
    Done,
}

impl BodyDecoder {
    /// The bytes of the frame that is still open.
    pub closed spec fn pending(self) -> Seq<u8> {
        self.frames.pending@
    }

    /// Whether the stream is over: no item comes after this.
    pub closed spec fn is_ended(self) -> bool {
        self.ended
    }

    /// Whether the stream is over.
    pub fn ended(&self) -> (r: bool)
        ensures
            r == self.is_ended(),
    {
        self.ended
    }

    /// The items that one read of the body yields. A chunk yields its decoded
    /// frames; a failed read yields its `Reading` error and ends the stream;
    /// the end of the body yields the unfinished frame, if any, and ends the
    /// stream. Once the stream is over nothing more comes.
    pub fn on_body_event(&mut self, event: BodyEvent) -> (r: Vec<
        Result<WatchEvent<k8s_openapi::api::core::v1::Pod>, StreamError>,
    >)
        ensures
            old(self).is_ended() ==> r@.len() == 0 && final(self).is_ended() && final(self).pending()
                == old(self).pending(),
            !old(self).is_ended() ==> match event {
                BodyEvent::Data(c) => decodes_frames(
                    r@,
                    scan_from((Seq::empty(), old(self).pending()), c@).0,
                ) && final(self).pending() == scan_from((Seq::empty(), old(self).pending()), c@).1
                    && !final(self).is_ended(),
                BodyEvent::Failed(m) => r@.len() == 1 && (r@[0] matches Err(
                    StreamError::Reading { message },
                ) && message@ == m@) && final(self).is_ended(),
                BodyEvent::Done => final(self).is_ended() && (old(self).pending().len() == 0
                    ==> r@.len() == 0) && (old(self).pending().len() > 0 ==> r@.len() == 1 && (
                r@[0] matches Err(StreamError::UnparsedDataUponCompletion { data }) && data@
                    == old(self).pending())),
            },
    {
        let mut out: Vec<Result<WatchEvent<k8s_openapi::api::core::v1::Pod>, StreamError>> =
            Vec::new();
        if self.ended {
            return out;
        }
        match event {
            BodyEvent::Data(chunk) => self.process_next_chunk(chunk.as_slice()),
            BodyEvent::Failed(message) => {
                self.ended = true;
                out.push(Err(StreamError::Reading { message }));
                out
            },
            BodyEvent::Done => {
                self.ended = true;
                if self.frames.pending.len() > 0 {
                    let mut data: Vec<u8> = Vec::new();
                    std::mem::swap(&mut data, &mut self.frames.pending);
                    out.push(Err(StreamError::UnparsedDataUponCompletion { data }));
                }
                out
            },
        }
    }

    /// Decodes the frames that `chunk` closes, in the order they arrived; a
    /// frame may have begun in any earlier chunk. Frames of whitespace alone
    /// are skipped.
    pub fn process_next_chunk(&mut self, chunk: &[u8]) -> (r: Vec<
        Result<WatchEvent<k8s_openapi::api::core::v1::Pod>, StreamError>,
    >)
        ensures
            decodes_frames(r@, scan_from((Seq::empty(), old(self).pending()), chunk@).0),
            final(self).pending() == scan_from((Seq::empty(), old(self).pending()), chunk@).1,
            final(self).is_ended() == old(self).is_ended(),
    {
        let frames = self.frames.push_chunk(chunk);
        let ghost fs = crate::framing::frames_view(frames@);
        let mut out: Vec<Result<WatchEvent<k8s_openapi::api::core::v1::Pod>, StreamError>> =
            Vec::new();
        let mut i: usize = 0;
        proof {
            reveal(Seq::filter);
            assert(fs.take(0) == Seq::<Seq<u8>>::empty());
        }
        while i < frames.len()
            invariant
                0 <= i <= frames@.len(),
                fs == crate::framing::frames_view(frames@),
                decodes_frames(out@, fs.take(i as int)),
            decreases frames@.len() - i,
        {
            proof {
                reveal(Seq::filter);
                assert(fs.take(i + 1).drop_last() == fs.take(i as int));
                assert(fs[i as int] == frames@[i as int]@);
            }
            let frame = frames[i].as_slice();
            let ghost before = out@;
            if !all_space_from(frame, 0) {
                proof {
                    assert(frame@.skip(0) == frame@);
                }
                let item = decode_one(frame);
                out.push(item);
                proof {
                    assert(nonblank(fs.take(i + 1)) == nonblank(fs.take(i as int)).push(frame@));
                    assert forall|j: int| 0 <= j < out@.len() implies decodes_frame(
                        #[trigger] out@[j],
                        nonblank(fs.take(i + 1))[j],
                    ) by {
                        if j < before.len() {
                            assert(out@[j] == before[j]);
                        }
                    }
                }
            } else {
                proof {
                    assert(frame@.skip(0) == frame@);
                    assert(nonblank(fs.take(i + 1)) == nonblank(fs.take(i as int)));
                }
            }
            i += 1;
        }
        proof {
            assert(fs.take(i as int) == fs);
        }
        out
    }

    /// The error that ends the stream when reading the body fails.
    pub fn read_failed(self, message: String) -> (r: StreamError)
        ensures
            r matches StreamError::Reading { message: m } && m@ == message@,
    {
        StreamError::Reading { message }
    }

    /// Ends the stream when the body is over: `None` when it ended on a frame
    /// boundary, otherwise the bytes of the unfinished frame.
    pub fn finish(self) -> (r: Option<StreamError>)
        ensures
            r is None <==> self.pending().len() == 0,
            r is Some ==> (r matches Some(StreamError::UnparsedDataUponCompletion { data })
                && data@ == self.pending()),
    {
        match self.frames.finish() {
            Ok(()) => None,
            Err(data) => Some(StreamError::UnparsedDataUponCompletion { data }),
        }
    }
}

/// A simple watcher atop of a Kubernetes API client.
pub struct ApiWatcher<C> {
    client: C,
}

impl<C> ApiWatcher<C> {
    /// The client that requests are sent with.
    pub closed spec fn spec_client(self) -> C {
        self.client
    }

    /// Create a new watcher over `client`.
    pub fn new(client: C) -> (r: Self)
        ensures
            r.spec_client() == client,
    {
        ApiWatcher { client }
    }

    /// The client that requests are sent with.
    pub fn client(&mut self) -> (r: &mut C)
        ensures
            *r == old(self).spec_client(),
            final(self).spec_client() == *final(r),
    {
        &mut self.client
    }

    /// Prepares the pod watch request; a builder failure is a
    /// non-retryable `RequestPreparation`, wrapped as `Other`.
    pub fn prepare(&self, request: &WatchRequest) -> (r: Result<
        http::Request<Vec<u8>>,
        InvocationError<Error>,
    >)
        ensures
            r is Ok <==> pod_watch_request_builds(
                (
                    opt_view(request.resource_version),
                    opt_view(request.label_selector),
                    opt_view(request.field_selector),
                    opt_view(request.pretty),
                    request.timeout_seconds,
                    request.allow_watch_bookmarks,
                ),
            ),
            r is Err ==> r matches Err(InvocationError::Other { source: Error::RequestPreparation { .. } }),
    {
        match watch_pods_request(
            &request.resource_version,
            &request.label_selector,
            &request.field_selector,
            &request.pretty,
            request.timeout_seconds,
            request.allow_watch_bookmarks,
        ) {
            Ok(req) => Ok(req),
            Err(source) => Err(InvocationError::from(Error::RequestPreparation { source })),
        }
    }

    /// Classifies a response by its status alone: `200 OK` succeeds, `410
    /// Gone` is a desync, any other status is `Other`, each carrying the
    /// literal status.
    pub fn classify_status(status: u16) -> (r: Result<(), InvocationError<Error>>)
        ensures
            is_outcome_of(Ok::<u16, String>(status), r),
    {
        if status != STATUS_OK {
            let source = Error::BadStatus { status };
            let err = if status == STATUS_GONE {
                InvocationError::Desync { source }
            } else {
                InvocationError::Other { source }
            };
            Err(err)
        } else {
            Ok(())
        }
    }

    /// Completes an invocation from what the transport gave back: the
    /// response status, or the transport's message where the request failed.
    /// Only a `200 OK` opens a stream, and the stream has read nothing yet.
    pub fn on_response(&mut self, response: Result<u16, String>) -> (r: Result<
        BodyDecoder,
        InvocationError<Error>,
    >)
        ensures
            is_outcome_of(response, r),
            r matches Ok(d) ==> d.pending().len() == 0 && !d.is_ended(),
            final(self).spec_client() == old(self).spec_client(),
    {
        match response {
            Err(message) => Err(InvocationError::from(Error::Request { message })),
            Ok(status) => match Self::classify_status(status) {
                Err(e) => Err(e),
                Ok(()) => Ok(BodyDecoder { frames: FrameBuffer::new(), ended: false }),
            },
        }
    }
}

} // verus!
