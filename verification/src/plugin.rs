//! A session with the simulator, without the transport.
//!
//! A [`Plugin`] decides; its owner moves the bytes. The owner hands in what
//! the transport delivered ([`Plugin::receive`], [`Plugin::end_of_stream`]),
//! asks what to do next ([`Plugin::advance`]) and does it: read more, write
//! what the session hands out, or take the reply. A request
//! ([`Plugin::system_info`] and its like) hands out the line to write and
//! leaves the session awaiting the reply.

use crate::builder::PluginBuilder;
use crate::error::Error;
use crate::frame::{scan, FrameReader, Scan, NEWLINE};
use crate::protocol::{Status, StatusView};
use crate::request::{register_request, registration_line, Operation, Request};
use crate::response::{reply_of, Response, ResponseView};
use crate::time::{corrected, corrected_time, now, Instant};
use crate::xml::{parse, parsed, Element};
use vstd::prelude::*;
use vstd::string::StringExecFns;
use vstd::utf8::decode_utf8;

verus! {

/// Where the simulator listens.
#[derive(Debug, Clone, Copy, PartialEq, Eq)]
pub enum Host {
    /// An IPv4 address `a.b.c.d` and a port.
    V4 { a: u8, b: u8, c: u8, d: u8, port: u16 },
    /// An IPv6 address as its eight groups, a port, and the flow
    /// information and the scope of the address.
    V6 {
        groups: (u16, u16, u16, u16, u16, u16, u16, u16),
        port: u16,
        flow_info: u32,
        scope_id: u32,
    },
}

/// What a plugin tells the simulator of itself, and where it finds it.
#[derive(Debug, Clone, PartialEq, Eq)]
pub struct PluginDetails {
    pub name: String,
    pub author: String,
    pub version: String,
    pub description: String,
    pub host: Host,
}

/// How far a session has come.
#[derive(Debug, Clone, Copy, PartialEq, Eq, Structural)]
pub enum Phase {
    /// The simulator's greeting is awaited.
    Greeting,
    /// The registration was handed out; its acknowledgement is awaited.
    Registering,
    /// The session is established and no request is under way.
    Idle,
    /// A request was handed out; its reply is awaited.
    Awaiting(Operation),
    /// The session is over: the handshake failed, the stream ended or
    /// broke, or a request was made while another was under way.
    Closed,
}

impl Phase {
    /// The closing tag that ends the reply awaited in this phase, if that
    /// reply spans several lines.
    pub open spec fn closing_tag(self) -> Option<Seq<char>> {
        match self {
            Phase::Awaiting(operation) => operation.closing_tag(),
            _ => None,
        }
    }

    /// Whether a reply is awaited in this phase.
    pub open spec fn awaits(self) -> bool {
        self is Greeting || self is Registering || self is Awaiting
    }
}

/// What the owner of a session does next.
#[derive(Debug, Clone, PartialEq, Eq)]
pub enum Step {
    /// Read from the transport and hand in what arrived.
    Read,
    /// Write these bytes to the transport and flush it.
    Write(Vec<u8>),
    /// Nothing: the session is established and no request is under way.
    Ready,
    /// Take the reply to the request that was under way.
    Reply(Response),
}

/// The line that registers the plugin, with its line end.
pub open spec fn registration(details: PluginDetails) -> Seq<u8> {
    registration_line(details.name@, details.author@, details.version@, details.description@)
        + seq![NEWLINE]
}

/// The status that the reply `text` holds.
pub open spec fn status_in(text: Seq<char>) -> Option<StatusView> {
    match parsed(text) {
        Some(node) => Status::of(node),
        None => None,
    }
}

/// The answer to `operation` that the reply `text` holds.
pub open spec fn reply_in(operation: Operation, text: Seq<char>) -> Option<ResponseView> {
    match parsed(text) {
        Some(node) => reply_of(operation, node),
        None => None,
    }
}

/// What a request made in `phase` leads to: the next phase, and whether
/// the request goes out. A request goes out only from an established
/// session with no request under way. Made while another is under way, it
/// ends the session: the reply that is still to come could no longer be
/// told from its own.
pub open spec fn requested(phase: Phase, operation: Operation) -> (Phase, bool) {
    match phase {
        Phase::Idle => (Phase::Awaiting(operation), true),
        Phase::Awaiting(_) => (Phase::Closed, false),
        other => (other, false),
    }
}

/// Reads one reply off what `reader` has received: takes the reply off the
/// front, if it has arrived in full, and reads it as XML.
///
/// - `Ok(Some(element))`: the root element of the reply.
/// - `Ok(None)`: the reply has not ended yet and the stream is open;
///   nothing changes.
/// - `Err(Error::Network(_))`: a line of the reply is not well-formed
///   UTF-8, or the stream ended before the reply did; nothing is taken.
/// - `Err(Error::Xml(_))`: the reply was taken and is not well-formed XML
///   or holds no element.
pub fn read_message(reader: &mut FrameReader) -> (r: Result<Option<Element>, Error>)
    requires
        old(reader).wf(),
    ensures
        final(reader).wf(),
        final(reader).terminator() == old(reader).terminator(),
        final(reader).is_closed() == old(reader).is_closed(),
        match old(reader).pending() {
            Scan::Complete(n) => {
                &&& n <= old(reader).buffered().len()
                &&& final(reader).buffered() == old(reader).buffered().skip(n as int)
                &&& match parsed(decode_utf8(old(reader).buffered().take(n as int))) {
                    Some(node) => r matches Ok(Some(element)) && element.deep_view() == node,
                    None => r matches Err(Error::Xml(_)),
                }
            },
            Scan::Incomplete => {
                &&& final(reader).buffered() == old(reader).buffered()
                &&& if old(reader).is_closed() {
                    r matches Err(Error::Network(_))
                } else {
                    r matches Ok(None)
                }
            },
            Scan::Invalid => {
                &&& final(reader).buffered() == old(reader).buffered()
                &&& r matches Err(Error::Network(_))
            },
        },
{
    match reader.poll() {
        Ok(Some(text)) => match parse(text.as_str()) {
            Ok(element) => Ok(Some(element)),
            Err(e) => Err(e),
        },
        Ok(None) => Ok(None),
        Err(e) => Err(e),
    }
}

/// Whether `r` is what a session makes of `answer`, the answer that the
/// reply to a request holds: the answer itself, or, for the clock, the
/// reading corrected by half of what passed from `sent`, when the request
/// was handed out, to `received`, when its reply was settled; and an `Xml`
/// error where the reply holds none.
pub open spec fn handed_out(
    answer: Option<ResponseView>,
    sent: Instant,
    received: Instant,
    r: Result<Step, Error>,
) -> bool {
    match answer {
        Some(ResponseView::SimulatorTime(reading)) => {
            &&& r matches Ok(Step::Reply(Response::SimulatorTime(time)))
            &&& time.nanos() == corrected(reading, sent, received)
        },
        Some(view) => r matches Ok(Step::Reply(response)) && response.deep_view() == view,
        None => r matches Err(Error::Xml(_)),
    }
}

/// Whether `r` and the phase `next` are what a session in `phase` comes to
/// once the reply it awaits has arrived in full and reads `text`.
///
/// - At the greeting, a status with code 300 has the registration handed
///   out and its acknowledgement awaited; any other status is an
///   `InvalidResponse` with that status and ends the session.
/// - After the registration, a status with code 220 establishes the
///   session; any other status is an `InvalidResponse` with that status and
///   ends the session.
/// - A reply to a request is handed out as what it holds, and the session
///   is ready for the next request. The clock is handed out corrected by
///   half of what passed from `sent`, when the request was handed out, to
///   `received`, when the reply was settled.
/// - A reply that does not read as what is awaited is an `Xml` error; at
///   the handshake it ends the session.
pub open spec fn settled(
    phase: Phase,
    details: PluginDetails,
    sent: Instant,
    received: Instant,
    text: Seq<char>,
    r: Result<Step, Error>,
    next: Phase,
) -> bool {
    match phase {
        Phase::Greeting => match status_in(text) {
            Some(status) => if status.code == 300 {
                &&& r matches Ok(Step::Write(line))
                &&& line@ == registration(details)
                &&& next == Phase::Registering
            } else {
                &&& r matches Err(Error::InvalidResponse(found))
                &&& found.deep_view() == status
                &&& next == Phase::Closed
            },
            None => r matches Err(Error::Xml(_)) && next == Phase::Closed,
        },
        Phase::Registering => match status_in(text) {
            Some(status) => if status.code == 220 {
                r == Ok::<Step, Error>(Step::Ready) && next == Phase::Idle
            } else {
                &&& r matches Err(Error::InvalidResponse(found))
                &&& found.deep_view() == status
                &&& next == Phase::Closed
            },
            None => r matches Err(Error::Xml(_)) && next == Phase::Closed,
        },
        Phase::Awaiting(operation) => next == Phase::Idle && handed_out(
            reply_in(operation, text),
            sent,
            received,
            r,
        ),
        _ => true,
    }
}

/// What happens to a session from outside: a request is made, or the reply
/// to the request under way arrives.
pub ghost enum Event {
    /// The request for `operation` is made; on the wire it is `line`.
    Request { operation: Operation, line: Seq<u8> },
    /// The reply to the request under way has arrived in full.
    Reply,
}

/// Where a session that starts in `phase` stands after `events`, and the
/// bytes it has handed out for the wire by then.
pub open spec fn run(phase: Phase, events: Seq<Event>) -> (Phase, Seq<u8>)
    decreases events.len(),
{
    if events.len() == 0 {
        (phase, Seq::empty())
    } else {
        let before = run(phase, events.drop_last());
        match events.last() {
            Event::Request { operation, line } => {
                let next = requested(before.0, operation);
                (
                    next.0,
                    if next.1 {
                        before.1 + line
                    } else {
                        before.1
                    },
                )
            },
            Event::Reply => (
                if before.0 is Awaiting {
                    Phase::Idle
                } else {
                    before.0
                },
                before.1,
            ),
        }
    }
}

/// The lines of the requests among `events` that go out, in their order.
pub open spec fn accepted(phase: Phase, events: Seq<Event>) -> Seq<Seq<u8>>
    decreases events.len(),
{
    if events.len() == 0 {
        Seq::empty()
    } else {
        let before = accepted(phase, events.drop_last());
        match events.last() {
            Event::Request { operation, line } => if requested(
                run(phase, events.drop_last()).0,
                operation,
            ).1 {
                before.push(line)
            } else {
                before
            },
            Event::Reply => before,
        }
    }
}

/// Whatever requests are made of a session and whenever, what it hands out
/// for the wire is whole request lines, one after the other: no line is
/// cut short and none starts inside another.
pub proof fn lemma_requests_go_out_whole(phase: Phase, events: Seq<Event>)
    ensures
        run(phase, events).1 == crate::frame::joined(accepted(phase, events)),
    decreases events.len(),
{
    if events.len() > 0 {
        lemma_requests_go_out_whole(phase, events.drop_last());
        let before = accepted(phase, events.drop_last());
        if let Event::Request { operation, line } = events.last() {
            if requested(run(phase, events.drop_last()).0, operation).1 {
                assert(before.push(line).drop_last() =~= before);
            }
        }
    }
}

/// A request goes out only after the reply to the one before it has
/// arrived: of two requests made one right after the other, the second is
/// refused and nothing of it reaches the wire.
pub proof fn lemma_second_request_is_refused(first: Operation, second: Operation)
    ensures
        requested(Phase::Idle, first) == (Phase::Awaiting(first), true),
        requested(requested(Phase::Idle, first).0, second) == (Phase::Closed, false),
{
}

/// A session with the simulator.
#[derive(Debug)]
pub struct Plugin {
    details: PluginDetails,
    phase: Phase,
    reader: FrameReader,
    sent: Instant,
    received: Instant,
}

impl Plugin {
    /// The session's invariant: its reader is in order and looks for the
    /// end of the reply that the phase awaits.
    pub closed spec fn wf(&self) -> bool {
        &&& self.reader.wf()
        &&& self.phase.awaits() ==> self.reader.terminator() == self.phase.closing_tag()
    }

    /// How far the session has come.
    pub closed spec fn phase(&self) -> Phase {
        self.phase
    }

    /// The bytes that were received and belong to no reply handed out so
    /// far.
    pub closed spec fn buffered(&self) -> Seq<u8> {
        self.reader.buffered()
    }

    /// Whether the stream has ended.
    pub closed spec fn ended(&self) -> bool {
        self.reader.is_closed()
    }

    /// What the plugin tells the simulator of itself.
    pub closed spec fn details(&self) -> PluginDetails {
        self.details
    }

    /// The reading of the clock at which the last request was handed out.
    pub closed spec fn sent(&self) -> Instant {
        self.sent
    }

    /// The reading of the clock at which the last reply to a request for
    /// the simulator's clock was settled.
    pub closed spec fn received(&self) -> Instant {
        self.received
    }

    /// A builder for a session.
    pub fn builder() -> (r: PluginBuilder)
        ensures
            r.given_name() is None,
            r.given_author() is None,
            r.given_version() is None,
            r.given_description() is None,
            r.given_host() is None,
    {
        PluginBuilder::new()
    }

    /// Starts a session for the plugin that `details` describe. The
    /// session awaits the simulator's greeting; nothing was received yet.
    pub fn connect(details: PluginDetails) -> (r: Plugin)
        ensures
            r.wf(),
            r.phase() == Phase::Greeting,
            r.buffered() == Seq::<u8>::empty(),
            !r.ended(),
            r.details() == details,
    {
        Plugin {
            details,
            phase: Phase::Greeting,
            reader: FrameReader::new(),
            sent: Instant { seconds: 0, nanos: 0 },
            received: Instant { seconds: 0, nanos: 0 },
        }
    }

    /// How far the session has come.
    pub fn current_phase(&self) -> (r: Phase)
        ensures
            r == self.phase(),
    {
        self.phase
    }

    /// Where the simulator is to be found.
    pub fn host(&self) -> (r: Host)
        ensures
            r == self.details().host,
    {
        self.details.host
    }

    /// The line that registers the plugin, with its line end.
    pub fn register(&self) -> (r: Vec<u8>)
        ensures
            r@ == registration(self.details()),
    {
        let mut line = register_request(
            self.details.name.as_str(),
            self.details.author.as_str(),
            self.details.version.as_str(),
            self.details.description.as_str(),
        );
        line.push(NEWLINE);
        line
    }

    /// Takes in bytes that the transport delivered, in the order of the
    /// stream.
    pub fn receive(&mut self, chunk: &[u8])
        requires
            old(self).wf(),
        ensures
            final(self).wf(),
            final(self).buffered() == old(self).buffered() + chunk@,
            final(self).phase() == old(self).phase(),
            final(self).ended() == old(self).ended(),
            final(self).details() == old(self).details(),
            final(self).sent() == old(self).sent(),
            final(self).received() == old(self).received(),
    {
        self.reader.push(chunk);
    }

    /// Records that the stream has ended.
    pub fn end_of_stream(&mut self)
        requires
            old(self).wf(),
        ensures
            final(self).wf(),
            final(self).ended(),
            final(self).buffered() == old(self).buffered(),
            final(self).phase() == old(self).phase(),
            final(self).details() == old(self).details(),
            final(self).sent() == old(self).sent(),
            final(self).received() == old(self).received(),
    {
        self.reader.close();
    }

    /// Makes a request: hands out its line, with the line end, and leaves
    /// the session awaiting the reply.
    ///
    /// `Err(Error::Network(_))` where the session is not established, and
    /// where another request is under way; the latter ends the session.
    pub fn send_request(&mut self, request: &Request) -> (r: Result<Vec<u8>, Error>)
        requires
            old(self).wf(),
        ensures
            final(self).wf(),
            final(self).buffered() == old(self).buffered(),
            final(self).ended() == old(self).ended(),
            final(self).details() == old(self).details(),
            final(self).received() == old(self).received(),
            final(self).phase() == requested(old(self).phase(), request.spec_operation()).0,
            !requested(old(self).phase(), request.spec_operation()).1 ==> final(self).sent()
                == old(self).sent(),
            match r {
                Ok(line) => {
                    &&& requested(old(self).phase(), request.spec_operation()).1
                    &&& line@ == request.wire() + seq![NEWLINE]
                },
                Err(e) => !requested(old(self).phase(), request.spec_operation()).1 && e is Network,
            },
    {
        match self.phase {
            Phase::Idle => {
                let operation = request.operation();
                let mut line = request.encode();
                line.push(NEWLINE);
                self.reader.expect(operation.terminator());
                self.sent = now();
                self.phase = Phase::Awaiting(operation);
                Ok(line)
            },
            Phase::Awaiting(_) => {
                self.phase = Phase::Closed;
                Err(Error::Network(String::from_str("a request was made while another was under way")))
            },
            Phase::Closed => Err(Error::Network(String::from_str("the session is over"))),
            _ => Err(Error::Network(String::from_str("the session is not established yet"))),
        }
    }

    /// Asks for the simulator's clock.
    pub fn simulator_time(&mut self) -> (r: Result<Vec<u8>, Error>)
        requires
            old(self).wf(),
        ensures
            final(self).wf(),
            final(self).buffered() == old(self).buffered(),
            final(self).ended() == old(self).ended(),
            final(self).details() == old(self).details(),
            final(self).received() == old(self).received(),
            final(self).phase() == requested(old(self).phase(), Operation::SimulatorTime).0,
            !requested(old(self).phase(), Operation::SimulatorTime).1 ==> final(self).sent()
                == old(self).sent(),
            match r {
                Ok(line) => {
                    &&& requested(old(self).phase(), Operation::SimulatorTime).1
                    &&& line@ == Request::SimulatorTime.wire() + seq![NEWLINE]
                },
                Err(e) => !requested(old(self).phase(), Operation::SimulatorTime).1 && e is Network,
            },
    {
        self.send_request(&Request::SimulatorTime)
    }

    /// Asks what signal box the simulator runs.
    pub fn system_info(&mut self) -> (r: Result<Vec<u8>, Error>)
        requires
            old(self).wf(),
        ensures
            final(self).wf(),
            final(self).buffered() == old(self).buffered(),
            final(self).ended() == old(self).ended(),
            final(self).details() == old(self).details(),
            final(self).received() == old(self).received(),
            final(self).phase() == requested(old(self).phase(), Operation::SystemInfo).0,
            !requested(old(self).phase(), Operation::SystemInfo).1 ==> final(self).sent()
                == old(self).sent(),
            match r {
                Ok(line) => {
                    &&& requested(old(self).phase(), Operation::SystemInfo).1
                    &&& line@ == Request::SystemInfo.wire() + seq![NEWLINE]
                },
                Err(e) => !requested(old(self).phase(), Operation::SystemInfo).1 && e is Network,
            },
    {
        self.send_request(&Request::SystemInfo)
    }

    /// Asks for the list of platforms.
    pub fn platform_list(&mut self) -> (r: Result<Vec<u8>, Error>)
        requires
            old(self).wf(),
        ensures
            final(self).wf(),
            final(self).buffered() == old(self).buffered(),
            final(self).ended() == old(self).ended(),
            final(self).details() == old(self).details(),
            final(self).received() == old(self).received(),
            final(self).phase() == requested(old(self).phase(), Operation::PlatformList).0,
            !requested(old(self).phase(), Operation::PlatformList).1 ==> final(self).sent()
                == old(self).sent(),
            match r {
                Ok(line) => {
                    &&& requested(old(self).phase(), Operation::PlatformList).1
                    &&& line@ == Request::PlatformList.wire() + seq![NEWLINE]
                },
                Err(e) => !requested(old(self).phase(), Operation::PlatformList).1 && e is Network,
            },
    {
        self.send_request(&Request::PlatformList)
    }

    /// Asks for the list of trains.
    pub fn train_list(&mut self) -> (r: Result<Vec<u8>, Error>)
        requires
            old(self).wf(),
        ensures
            final(self).wf(),
            final(self).buffered() == old(self).buffered(),
            final(self).ended() == old(self).ended(),
            final(self).details() == old(self).details(),
            final(self).received() == old(self).received(),
            final(self).phase() == requested(old(self).phase(), Operation::TrainList).0,
            !requested(old(self).phase(), Operation::TrainList).1 ==> final(self).sent()
                == old(self).sent(),
            match r {
                Ok(line) => {
                    &&& requested(old(self).phase(), Operation::TrainList).1
                    &&& line@ == Request::TrainList.wire() + seq![NEWLINE]
                },
                Err(e) => !requested(old(self).phase(), Operation::TrainList).1 && e is Network,
            },
    {
        self.send_request(&Request::TrainList)
    }

    /// Asks for the details of the train `train_id`.
    pub fn train_details(&mut self, train_id: &str) -> (r: Result<Vec<u8>, Error>)
        requires
            old(self).wf(),
        ensures
            final(self).wf(),
            final(self).buffered() == old(self).buffered(),
            final(self).ended() == old(self).ended(),
            final(self).details() == old(self).details(),
            final(self).received() == old(self).received(),
            final(self).phase() == requested(old(self).phase(), Operation::TrainDetails).0,
            !requested(old(self).phase(), Operation::TrainDetails).1 ==> final(self).sent()
                == old(self).sent(),
            match r {
                Ok(line) => {
                    &&& requested(old(self).phase(), Operation::TrainDetails).1
                    &&& line@ == crate::request::request_line(Operation::TrainDetails, train_id@)
                        + seq![NEWLINE]
                },
                Err(e) => !requested(old(self).phase(), Operation::TrainDetails).1 && e is Network,
            },
    {
        self.send_request(&Request::TrainDetails(String::from_str(train_id)))
    }

    /// Asks for the timetable of the train `train_id`.
    pub fn train_timetable(&mut self, train_id: &str) -> (r: Result<Vec<u8>, Error>)
        requires
            old(self).wf(),
        ensures
            final(self).wf(),
            final(self).buffered() == old(self).buffered(),
            final(self).ended() == old(self).ended(),
            final(self).details() == old(self).details(),
            final(self).received() == old(self).received(),
            final(self).phase() == requested(old(self).phase(), Operation::TrainTimetable).0,
            !requested(old(self).phase(), Operation::TrainTimetable).1 ==> final(self).sent()
                == old(self).sent(),
            match r {
                Ok(line) => {
                    &&& requested(old(self).phase(), Operation::TrainTimetable).1
                    &&& line@ == crate::request::request_line(Operation::TrainTimetable, train_id@)
                        + seq![NEWLINE]
                },
                Err(e) => !requested(old(self).phase(), Operation::TrainTimetable).1
                    && e is Network,
            },
    {
        self.send_request(&Request::TrainTimetable(String::from_str(train_id)))
    }

    /// Asks for the track diagram.
    pub fn ways(&mut self) -> (r: Result<Vec<u8>, Error>)
        requires
            old(self).wf(),
        ensures
            final(self).wf(),
            final(self).buffered() == old(self).buffered(),
            final(self).ended() == old(self).ended(),
            final(self).details() == old(self).details(),
            final(self).received() == old(self).received(),
            final(self).phase() == requested(old(self).phase(), Operation::Ways).0,
            !requested(old(self).phase(), Operation::Ways).1 ==> final(self).sent()
                == old(self).sent(),
            match r {
                Ok(line) => {
                    &&& requested(old(self).phase(), Operation::Ways).1
                    &&& line@ == Request::Ways.wire() + seq![NEWLINE]
                },
                Err(e) => !requested(old(self).phase(), Operation::Ways).1 && e is Network,
            },
    {
        self.send_request(&Request::Ways)
    }

    /// Says what to do next.
    ///
    /// - An established session with no request under way is `Ready`; a
    ///   session that is over is a `Network` error. Neither changes.
    /// - Else a reply is awaited. Where it has arrived in full it is taken
    ///   off what was received and settled (see [`settled`]); for a reply
    ///   that holds the simulator's clock the session reads its own clock
    ///   and keeps the reading. Where it has
    ///   not, there is more to `Read`, unless the stream has ended: that,
    ///   and a line that is not well-formed UTF-8, is a `Network` error and
    ///   ends the session.
    pub fn advance(&mut self) -> (r: Result<Step, Error>)
        requires
            old(self).wf(),
        ensures
            final(self).wf(),
            final(self).ended() == old(self).ended(),
            final(self).details() == old(self).details(),
            final(self).sent() == old(self).sent(),
            old(self).phase() != Phase::Awaiting(Operation::SimulatorTime)
                ==> final(self).received() == old(self).received(),
            match old(self).phase() {
                Phase::Idle => {
                    &&& r == Ok::<Step, Error>(Step::Ready)
                    &&& final(self).phase() == old(self).phase()
                    &&& final(self).buffered() == old(self).buffered()
                },
                Phase::Closed => {
                    &&& r matches Err(Error::Network(_))
                    &&& final(self).phase() == old(self).phase()
                    &&& final(self).buffered() == old(self).buffered()
                },
                phase => match scan(old(self).buffered(), phase.closing_tag(), old(self).ended()) {
                    Scan::Complete(n) => {
                        &&& n <= old(self).buffered().len()
                        &&& final(self).buffered() == old(self).buffered().skip(n as int)
                        &&& settled(
                            phase,
                            old(self).details(),
                            old(self).sent(),
                            final(self).received(),
                            decode_utf8(old(self).buffered().take(n as int)),
                            r,
                            final(self).phase(),
                        )
                    },
                    Scan::Incomplete => {
                        &&& final(self).buffered() == old(self).buffered()
                        &&& if old(self).ended() {
                            r matches Err(Error::Network(_)) && final(self).phase() == Phase::Closed
                        } else {
                            r == Ok::<Step, Error>(Step::Read) && final(self).phase() == phase
                        }
                    },
                    Scan::Invalid => {
                        &&& final(self).buffered() == old(self).buffered()
                        &&& r matches Err(Error::Network(_))
                        &&& final(self).phase() == Phase::Closed
                    },
                },
            },
    {
        match self.phase {
            Phase::Idle => {
                return Ok(Step::Ready);
            },
            Phase::Closed => {
                return Err(Error::Network(String::from_str("the session is over")));
            },
            _ => {},
        }
        match self.reader.poll() {
            Ok(Some(text)) => self.settle(text.as_str()),
            Ok(None) => Ok(Step::Read),
            Err(e) => {
                self.phase = Phase::Closed;
                Err(e)
            },
        }
    }

    /// Settles the reply `text`, which the session awaited.
    fn settle(&mut self, text: &str) -> (r: Result<Step, Error>)
        requires
            old(self).wf(),
            old(self).phase().awaits(),
        ensures
            final(self).wf(),
            final(self).buffered() == old(self).buffered(),
            final(self).ended() == old(self).ended(),
            final(self).details() == old(self).details(),
            final(self).sent() == old(self).sent(),
            old(self).phase() != Phase::Awaiting(Operation::SimulatorTime)
                ==> final(self).received() == old(self).received(),
            settled(
                old(self).phase(),
                old(self).details(),
                old(self).sent(),
                final(self).received(),
                text@,
                r,
                final(self).phase(),
            ),
    {
        let element = match parse(text) {
            Ok(element) => element,
            Err(e) => {
                self.phase = match self.phase {
                    Phase::Awaiting(_) => Phase::Idle,
                    _ => Phase::Closed,
                };
                return Err(e);
            },
        };
        match self.phase {
            Phase::Greeting => self.greeted(&element),
            Phase::Registering => self.acknowledged(&element),
            Phase::Awaiting(operation) => self.answered(operation, &element),
            _ => Ok(Step::Ready),
        }
    }

    /// Settles the greeting that `element` holds.
    fn greeted(&mut self, element: &Element) -> (r: Result<Step, Error>)
        requires
            old(self).wf(),
            old(self).phase() == Phase::Greeting,
        ensures
            final(self).wf(),
            final(self).buffered() == old(self).buffered(),
            final(self).ended() == old(self).ended(),
            final(self).details() == old(self).details(),
            final(self).sent() == old(self).sent(),
            final(self).received() == old(self).received(),
            match Status::of(element.deep_view()) {
                Some(status) => if status.code == 300 {
                    &&& r matches Ok(Step::Write(line))
                    &&& line@ == registration(old(self).details())
                    &&& final(self).phase() == Phase::Registering
                } else {
                    &&& r matches Err(Error::InvalidResponse(found))
                    &&& found.deep_view() == status
                    &&& final(self).phase() == Phase::Closed
                },
                None => r matches Err(Error::Xml(_)) && final(self).phase() == Phase::Closed,
            },
    {
        match Status::decode(element) {
            Ok(status) => if status.code == Status::GREETING {
                self.phase = Phase::Registering;
                Ok(Step::Write(self.register()))
            } else {
                self.phase = Phase::Closed;
                Err(Error::InvalidResponse(status))
            },
            Err(e) => {
                self.phase = Phase::Closed;
                Err(e)
            },
        }
    }

    /// Settles the acknowledgement of the registration that `element`
    /// holds.
    fn acknowledged(&mut self, element: &Element) -> (r: Result<Step, Error>)
        requires
            old(self).wf(),
            old(self).phase() == Phase::Registering,
        ensures
            final(self).wf(),
            final(self).buffered() == old(self).buffered(),
            final(self).ended() == old(self).ended(),
            final(self).details() == old(self).details(),
            final(self).sent() == old(self).sent(),
            final(self).received() == old(self).received(),
            match Status::of(element.deep_view()) {
                Some(status) => if status.code == 220 {
                    r == Ok::<Step, Error>(Step::Ready) && final(self).phase() == Phase::Idle
                } else {
                    &&& r matches Err(Error::InvalidResponse(found))
                    &&& found.deep_view() == status
                    &&& final(self).phase() == Phase::Closed
                },
                None => r matches Err(Error::Xml(_)) && final(self).phase() == Phase::Closed,
            },
    {
        match Status::decode(element) {
            Ok(status) => if status.code == Status::REGISTERED {
                self.phase = Phase::Idle;
                Ok(Step::Ready)
            } else {
                self.phase = Phase::Closed;
                Err(Error::InvalidResponse(status))
            },
            Err(e) => {
                self.phase = Phase::Closed;
                Err(e)
            },
        }
    }

    /// Settles the reply to the request for `operation` that `element`
    /// holds.
    fn answered(&mut self, operation: Operation, element: &Element) -> (r: Result<Step, Error>)
        requires
            old(self).wf(),
            old(self).phase() == Phase::Awaiting(operation),
        ensures
            final(self).wf(),
            final(self).buffered() == old(self).buffered(),
            final(self).ended() == old(self).ended(),
            final(self).details() == old(self).details(),
            final(self).sent() == old(self).sent(),
            old(self).phase() != Phase::Awaiting(Operation::SimulatorTime)
                ==> final(self).received() == old(self).received(),
            final(self).phase() == Phase::Idle,
            handed_out(
                reply_of(operation, element.deep_view()),
                old(self).sent(),
                final(self).received(),
                r,
            ),
    {
        self.phase = Phase::Idle;
        let ghost answer = reply_of(operation, element.deep_view());
        match Response::decode(operation, element) {
            Ok(Response::SimulatorTime(reading)) => {
                self.received = now();
                let time = corrected_time(reading, self.sent, self.received);
                let r = Ok(Step::Reply(Response::SimulatorTime(time)));
                proof {
                    assert(answer == Some(ResponseView::SimulatorTime(reading.nanos())));
                }
                r
            },
            Ok(response) => {
                let r = Ok(Step::Reply(response));
                proof {
                    assert(answer == Some(response.deep_view()));
                    assert(!(response.deep_view() is SimulatorTime));
                }
                r
            },
            Err(e) => Err(e),
        }
    }
}

} // verus!
