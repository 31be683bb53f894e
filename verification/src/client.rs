//! The client: one call at a time over one connection, as a state machine
//! that hands out request frames and takes reply payloads.

use crate::call::{
    encode_log_call, encode_plain_call, entries_fit, lemma_plain_call_len, spec_encode_log_call,
    spec_encode_plain_call, Method, PLAIN_CALL_MAX,
};
use crate::frame::{
    frame_length, lemma_frame_round_trip, spec_frame_length, spec_read_frame, spec_write_frame,
    write_frame,
};
use crate::inbound::{lemma_log_call_round_trip, spec_decode_log_call};
use crate::model::{entries_view, ClientError, ErrorView, EntryView, LogEntry};
use crate::reply::{decode_reply, outcome_view, spec_decode_reply, Reply, ReplyView};
use vstd::prelude::*;

verus! {

/// Largest frame that a new client sends or accepts, in bytes.
pub const DEFAULT_MAX_FRAME_SIZE: u32 = 16_384_000;

/// Where a connection stands.
#[derive(Clone, Copy, PartialEq, Eq, Debug)]
pub enum State {
    /// The next call may go out.
    Ready,
    /// A request went out and its reply is awaited.
    Awaiting(Method),
    /// A failure made the connection unusable.
    Broken,
}

/// The sequence id that follows `last`: one more, and zero after the largest.
pub open spec fn spec_next_seq(last: i32) -> i32 {
    if last == i32::MAX {
        0i32
    } else {
        (last + 1) as i32
    }
}

/// The request frame, if `payload` may go out under the frame limit `max`.
pub open spec fn spec_framed(payload: Seq<u8>, max: u32) -> Result<Seq<u8>, ErrorView> {
    if payload.len() <= max {
        Ok(spec_write_frame(payload))
    } else {
        Err(ErrorView::Protocol)
    }
}

/// What `Log` sends for a batch under the sequence id `seq`.
pub open spec fn spec_log_request(seq: i32, es: Seq<EntryView>, max: u32) -> Result<
    Seq<u8>,
    ErrorView,
> {
    if entries_fit(es) {
        spec_framed(spec_encode_log_call(seq, es), max)
    } else {
        Err(ErrorView::Protocol)
    }
}

/// True where a value is of the type that `method` returns.
pub open spec fn reply_suits(method: Method, v: ReplyView) -> bool {
    match method {
        Method::Log => v is Code,
        Method::GetStatus => v is Status,
        Method::GetCounters => v is Counters,
        Method::AliveSince => v is Since,
        _ => v is Text,
    }
}

/// The state after a reply was decoded: a value or a fault of the peer leaves
/// the connection ready, anything else breaks it.
pub open spec fn spec_state_after(r: Result<ReplyView, ErrorView>) -> State {
    match r {
        Ok(_) => State::Ready,
        Err(ErrorView::RemoteService { .. }) => State::Ready,
        Err(_) => State::Broken,
    }
}

/// A client for one collector.
pub struct ScribeClient {
    host: String,
    port: u32,
    max_frame: u32,
    last_seq: i32,
    state: State,
}

impl ScribeClient {
    /// The collector's host name.
    pub closed spec fn spec_host(&self) -> Seq<char> {
        self.host@
    }

    /// The collector's port.
    pub closed spec fn spec_port(&self) -> u32 {
        self.port
    }

    /// Where the connection stands.
    pub closed spec fn spec_state(&self) -> State {
        self.state
    }

    /// The sequence id of the last request.
    pub closed spec fn spec_last_seq(&self) -> i32 {
        self.last_seq
    }

    /// The frame limit.
    pub closed spec fn spec_max_frame(&self) -> u32 {
        self.max_frame
    }

    /// True where `after` is `before` with nothing but state and sequence id
    /// changed.
    pub open spec fn same_peer(before: &ScribeClient, after: &ScribeClient) -> bool {
        &&& after.spec_host() == before.spec_host()
        &&& after.spec_port() == before.spec_port()
        &&& after.spec_max_frame() == before.spec_max_frame()
    }

    /// A client for the collector at `host:port`, ready for its first call.
    pub fn new(host: String, port: u32) -> (c: ScribeClient)
        ensures
            c.spec_host() == host@,
            c.spec_port() == port,
            c.spec_state() == State::Ready,
            c.spec_last_seq() == 0,
            c.spec_max_frame() == DEFAULT_MAX_FRAME_SIZE,
    {
        ScribeClient {
            host,
            port,
            max_frame: DEFAULT_MAX_FRAME_SIZE,
            last_seq: 0,
            state: State::Ready,
        }
    }

    /// Sets the frame limit.
    pub fn set_max_frame_size(&mut self, max: u32)
        ensures
            final(self).spec_max_frame() == max,
            final(self).spec_host() == old(self).spec_host(),
            final(self).spec_port() == old(self).spec_port(),
            final(self).spec_state() == old(self).spec_state(),
            final(self).spec_last_seq() == old(self).spec_last_seq(),
    {
        self.max_frame = max;
    }

    /// The collector's host name.
    pub fn host(&self) -> (h: &str)
        ensures
            h@ == self.spec_host(),
    {
        self.host.as_str()
    }

    /// The collector's port.
    #[verifier::when_used_as_spec(spec_port)]
    pub fn port(&self) -> (p: u32)
        ensures
            p == self.spec_port(),
    {
        self.port
    }

    /// Where the connection stands.
    #[verifier::when_used_as_spec(spec_state)]
    pub fn state(&self) -> (s: State)
        ensures
            s == self.spec_state(),
    {
        self.state
    }

    /// The sequence id of the last request; zero before the first.
    #[verifier::when_used_as_spec(spec_last_seq)]
    pub fn last_seq(&self) -> (s: i32)
        ensures
            s == self.spec_last_seq(),
    {
        self.last_seq
    }

    /// The frame limit.
    #[verifier::when_used_as_spec(spec_max_frame)]
    pub fn max_frame_size(&self) -> (m: u32)
        ensures
            m == self.spec_max_frame(),
    {
        self.max_frame
    }

    /// The sequence id for the next request.
    fn next_seq(&self) -> (s: i32)
        ensures
            s == spec_next_seq(self.spec_last_seq()),
    {
        if self.last_seq == i32::MAX {
            0
        } else {
            self.last_seq + 1
        }
    }

    /// Records that `payload` goes out as the request of `method` under `seq`.
    fn send(&mut self, method: Method, seq: i32, payload: Vec<u8>) -> (r: Result<
        Vec<u8>,
        ClientError,
    >)
        requires
            old(self).spec_state() == State::Ready,
            seq == spec_next_seq(old(self).spec_last_seq()),
        ensures
            Self::same_peer(old(self), final(self)),
            match spec_framed(payload@, old(self).spec_max_frame()) {
                Ok(f) => {
                    &&& r is Ok
                    &&& r->Ok_0@ == f
                    &&& final(self).spec_state() == State::Awaiting(method)
                    &&& final(self).spec_last_seq() == seq
                },
                Err(e) => {
                    &&& r is Err
                    &&& r->Err_0@ == e
                    &&& final(self).spec_state() == State::Ready
                    &&& final(self).spec_last_seq() == old(self).spec_last_seq()
                },
            },
    {
        match write_frame(payload.as_slice(), self.max_frame) {
            Ok(f) => {
                self.last_seq = seq;
                self.state = State::Awaiting(method);
                Ok(f)
            },
            Err(e) => Err(e),
        }
    }

    /// Starts a call of a method that takes no argument, and returns the
    /// frame to send.
    fn request(&mut self, method: Method) -> (r: Result<Vec<u8>, ClientError>)
        ensures
            Self::request_made(old(self), final(self), method, r),
    {
        match self.state {
            State::Ready => {
                let seq = self.next_seq();
                let payload = encode_plain_call(method, seq);
                proof {
                    lemma_plain_call_len(method, seq);
                }
                self.send(method, seq, payload)
            },
            _ => Err(ClientError::Connection),
        }
    }

    /// Starts a `Log` call that carries the whole batch in one frame, and
    /// returns the frame to send.
    ///
    /// Unless the client is ready there is no frame, the error is
    /// `Connection`, and nothing changes. A batch that cannot be sent, or
    /// whose request is over the frame limit, is refused with `Protocol`, and
    /// nothing changes. Else the frame holds the request under the next
    /// sequence id, and the client awaits the reply.
    pub fn log(&mut self, messages: Vec<LogEntry>) -> (r: Result<Vec<u8>, ClientError>)
        ensures
            Self::same_peer(old(self), final(self)),
            old(self).spec_state() != State::Ready ==> {
                &&& r is Err
                &&& r->Err_0@ == ErrorView::Connection
                &&& final(self).spec_state() == old(self).spec_state()
                &&& final(self).spec_last_seq() == old(self).spec_last_seq()
            },
            old(self).spec_state() == State::Ready ==> match spec_log_request(
                spec_next_seq(old(self).spec_last_seq()),
                entries_view(messages@),
                old(self).spec_max_frame(),
            ) {
                Ok(f) => {
                    &&& r is Ok
                    &&& r->Ok_0@ == f
                    &&& final(self).spec_state() == State::Awaiting(Method::Log)
                    &&& final(self).spec_last_seq() == spec_next_seq(old(self).spec_last_seq())
                },
                Err(e) => {
                    &&& r is Err
                    &&& r->Err_0@ == e
                    &&& final(self).spec_state() == State::Ready
                    &&& final(self).spec_last_seq() == old(self).spec_last_seq()
                },
            },
    {
        match self.state {
            State::Ready => {
                let seq = self.next_seq();
                match encode_log_call(seq, messages.as_slice()) {
                    Some(payload) => self.send(Method::Log, seq, payload),
                    None => Err(ClientError::Protocol),
                }
            },
            _ => Err(ClientError::Connection),
        }
    }

    /// Starts a `getStatus` call and returns the frame to send; `request_made` says
    /// when there is one and what it holds.
    pub fn get_status(&mut self) -> (r: Result<Vec<u8>, ClientError>)
        ensures
            Self::request_made(old(self), final(self), Method::GetStatus, r),
    {
        self.request(Method::GetStatus)
    }

    /// Starts a `getName` call and returns the frame to send; `request_made` says
    /// when there is one and what it holds.
    pub fn get_name(&mut self) -> (r: Result<Vec<u8>, ClientError>)
        ensures
            Self::request_made(old(self), final(self), Method::GetName, r),
    {
        self.request(Method::GetName)
    }

    /// Starts a `getVersion` call and returns the frame to send; `request_made` says
    /// when there is one and what it holds.
    pub fn get_version(&mut self) -> (r: Result<Vec<u8>, ClientError>)
        ensures
            Self::request_made(old(self), final(self), Method::GetVersion, r),
    {
        self.request(Method::GetVersion)
    }

    /// Starts a `getStatusDetails` call and returns the frame to send; `request_made` says
    /// when there is one and what it holds.
    pub fn get_status_details(&mut self) -> (r: Result<Vec<u8>, ClientError>)
        ensures
            Self::request_made(old(self), final(self), Method::GetStatusDetails, r),
    {
        self.request(Method::GetStatusDetails)
    }

    /// Starts a `getCounters` call and returns the frame to send; `request_made` says
    /// when there is one and what it holds.
    pub fn get_counters(&mut self) -> (r: Result<Vec<u8>, ClientError>)
        ensures
            Self::request_made(old(self), final(self), Method::GetCounters, r),
    {
        self.request(Method::GetCounters)
    }

    /// Starts an `aliveSince` call and returns the frame to send; `request_made`
    /// says when there is one and what it holds.
    pub fn alive_since(&mut self) -> (r: Result<Vec<u8>, ClientError>)
        ensures
            Self::request_made(old(self), final(self), Method::AliveSince, r),
    {
        self.request(Method::AliveSince)
    }

    /// What starting a call of a method without arguments gives.
    ///
    /// Unless the client was ready there is no frame, the error is
    /// `Connection`, and nothing changes. A request over the frame limit is
    /// refused with `Protocol`, and nothing changes; with a limit of at least
    /// `PLAIN_CALL_MAX` that does not happen. Else the frame holds the request
    /// under the next sequence id, and the client awaits the reply.
    pub open spec fn request_made(
        before: &ScribeClient,
        after: &ScribeClient,
        method: Method,
        r: Result<Vec<u8>, ClientError>,
    ) -> bool {
        &&& Self::same_peer(before, after)
        &&& before.spec_state() == State::Ready && before.spec_max_frame() >= PLAIN_CALL_MAX
            ==> r is Ok
        &&& before.spec_state() != State::Ready ==> {
            &&& r is Err
            &&& r->Err_0@ == ErrorView::Connection
            &&& after.spec_state() == before.spec_state()
            &&& after.spec_last_seq() == before.spec_last_seq()
        }
        &&& before.spec_state() == State::Ready ==> match spec_framed(
            spec_encode_plain_call(method, spec_next_seq(before.spec_last_seq())),
            before.spec_max_frame(),
        ) {
            Ok(f) => {
                &&& r is Ok
                &&& r->Ok_0@ == f
                &&& after.spec_state() == State::Awaiting(method)
                &&& after.spec_last_seq() == spec_next_seq(before.spec_last_seq())
            },
            Err(e) => {
                &&& r is Err
                &&& r->Err_0@ == e
                &&& after.spec_state() == State::Ready
                &&& after.spec_last_seq() == before.spec_last_seq()
            },
        }
    }

    /// Takes the header of the reply frame and returns the length of the
    /// payload to read, before anything is allocated for it.
    ///
    /// Unless a reply is awaited the error is `Connection` and nothing
    /// changes. A header of fewer than four bytes is an `Io` failure, a length
    /// over the frame limit a `Protocol` failure; both break the connection.
    pub fn expect_frame(&mut self, header: &[u8]) -> (r: Result<usize, ClientError>)
        ensures
            Self::same_peer(old(self), final(self)),
            final(self).spec_last_seq() == old(self).spec_last_seq(),
            !(old(self).spec_state() is Awaiting) ==> {
                &&& r is Err
                &&& r->Err_0@ == ErrorView::Connection
                &&& final(self).spec_state() == old(self).spec_state()
            },
            old(self).spec_state() is Awaiting ==> match spec_frame_length(
                header@,
                old(self).spec_max_frame(),
            ) {
                Ok(n) => r is Ok && r->Ok_0 == n && final(self).spec_state() == old(
                    self,
                ).spec_state(),
                Err(e) => r is Err && r->Err_0@ == e && final(self).spec_state() == State::Broken,
            },
    {
        match self.state {
            State::Awaiting(_) => match frame_length(header, self.max_frame) {
                Ok(n) => Ok(n),
                Err(e) => {
                    self.state = State::Broken;
                    Err(e)
                },
            },
            _ => Err(ClientError::Connection),
        }
    }

    /// Takes the payload of the reply frame and returns what the awaited call
    /// gives.
    ///
    /// Unless a reply is awaited the error is `Connection` and nothing
    /// changes. Else the result is what the payload means for the awaited
    /// method under the last sequence id: a value of the method's type, the
    /// peer's fault, or a `Protocol` failure, which breaks the connection.
    pub fn reply(&mut self, payload: &[u8]) -> (r: Result<Reply, ClientError>)
        ensures
            Self::same_peer(old(self), final(self)),
            final(self).spec_last_seq() == old(self).spec_last_seq(),
            match old(self).spec_state() {
                State::Awaiting(m) => {
                    &&& outcome_view(r) == spec_decode_reply(payload@, m, old(self).spec_last_seq())
                    &&& final(self).spec_state() == spec_state_after(outcome_view(r))
                    &&& r matches Ok(v) ==> reply_suits(m, v@)
                },
                _ => {
                    &&& r is Err
                    &&& r->Err_0@ == ErrorView::Connection
                    &&& final(self).spec_state() == old(self).spec_state()
                },
            },
    {
        match self.state {
            State::Awaiting(m) => {
                let r = decode_reply(payload, m, self.last_seq);
                self.state = match &r {
                    Ok(_) => State::Ready,
                    Err(ClientError::RemoteService { .. }) => State::Ready,
                    Err(_) => State::Broken,
                };
                r
            },
            _ => Err(ClientError::Connection),
        }
    }

    /// Records that reading or writing the stream failed: the connection is
    /// broken from now on.
    pub fn transport_failed(&mut self) -> (e: ClientError)
        ensures
            e@ == ErrorView::Io,
            Self::same_peer(old(self), final(self)),
            final(self).spec_last_seq() == old(self).spec_last_seq(),
            final(self).spec_state() == State::Broken,
    {
        self.state = State::Broken;
        ClientError::Io
    }
}

/// What `log` puts on the wire reads back as the batch it was given: the
/// frame holds one request, and that request decodes to the same sequence id
/// and the same list of categories and messages.
pub proof fn lemma_log_wire_round_trip(seq: i32, es: Seq<EntryView>, max: u32)
    requires
        spec_log_request(seq, es, max) is Ok,
    ensures
        spec_read_frame(spec_log_request(seq, es, max)->Ok_0, max) == Ok::<Seq<u8>, ErrorView>(
            spec_encode_log_call(seq, es),
        ),
        spec_decode_log_call(spec_encode_log_call(seq, es)) == Some((seq, es)),
{
    lemma_frame_round_trip(spec_encode_log_call(seq, es), max);
    lemma_log_call_round_trip(seq, es);
}

} // verus!
