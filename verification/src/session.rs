//! One connected central, from `hello` to disconnect.
//!
//! A request is forwarded verbatim. A line is read only far enough to know whether its method is
//! allowed here and which service owns it; then the bytes that came go on, and nothing is
//! rewritten.
use vstd::prelude::*;

use crate::code;
use crate::framing;
use crate::framing::{FramingError, Reassembler};
use crate::proto::{Call, Error, Id, Response};
use crate::proto;
use crate::route;
use crate::route::{Lane, Upstream};
use crate::text;

verus! {

/// What came of reading one line as a request.
#[derive(Debug)]
pub enum Reading {
    /// Not a request, and why.
    Unparseable(String),
    /// A request: its identifier, and the call it makes or the error in it.
    Request(Option<Id>, Result<Call, Error>),
}

/// What to do about one line.
#[derive(Debug)]
pub enum Step {
    /// Answer it here.
    Answer(Response),
    /// Nothing: nobody expects an answer.
    Silence,
    /// Write these bytes to a service.
    Forward { upstream: Upstream, lane: Lane, frame: Vec<u8>, id: Option<Id> },
}

/// An error as it is answered: code, message and data.
pub type ErrorView = (int, Seq<char>, Option<serde_json::Value>);

/// The code, the message and the data of an error.
pub open spec fn error_view(e: Error) -> ErrorView {
    (e.code as int, e.message@, e.data)
}

/// A step, by what it holds.
pub enum StepView {
    Answer { id: Option<Id>, error: ErrorView },
    Silence,
    Forward { upstream: Upstream, lane: Lane, frame: Seq<u8>, id: Option<Id> },
}

/// Is this response the error `error`, addressed to `id`?
pub open spec fn is_error_response(r: Response, id: Option<Id>, error: ErrorView) -> bool {
    &&& r.jsonrpc@ == proto::JSONRPC_VERSION@
    &&& r.id == id
    &&& r.result is None
    &&& r.error matches Some(e) && error_view(e) == error
}

impl Step {
    /// Does the step do what `v` says?
    pub open spec fn does(&self, v: StepView) -> bool {
        match (*self, v) {
            (Step::Answer(r), StepView::Answer { id, error }) => is_error_response(r, id, error),
            (Step::Silence, StepView::Silence) => true,
            (
                Step::Forward { upstream, lane, frame, id },
                StepView::Forward { upstream: u, lane: l, frame: f, id: i },
            ) => upstream == u && lane == l && frame@ == f && id == i,
            _ => false,
        }
    }
}

/// An error goes to whoever can be answered, and to nobody else.
pub open spec fn addressed(id: Option<Id>, error: ErrorView) -> StepView {
    match id {
        Some(_) => StepView::Answer { id, error },
        None => StepView::Silence,
    }
}

/// The decision about one line.
pub open spec fn decided(line: Seq<char>, reading: Reading) -> StepView {
    match reading {
        Reading::Unparseable(why) => StepView::Answer {
            id: None,
            error: (code::PARSE_ERROR as int, why@, None),
        },
        Reading::Request(id, Err(e)) => addressed(id, error_view(e)),
        Reading::Request(id, Ok(call)) => match route::destination(&call) {
            Some(d) => StepView::Forward {
                upstream: d.0,
                lane: d.1,
                frame: framing::framed(line),
                id,
            },
            None => addressed(
                id,
                (
                    code::PERMISSION_DENIED as int,
                    route::refusal_text(call.method_name()),
                    None,
                ),
            ),
        },
    }
}

fn address(id: Option<Id>, error: Error) -> (r: Step)
    ensures
        r.does(addressed(id, error_view(error))),
{
    match id {
        Some(id) => Step::Answer(Response::err(Some(id), error)),
        None => Step::Silence,
    }
}

/// Decide about one complete line.
///
/// A line nobody can read is answered with a null id. A notification expects no reply, so a
/// refused one is dropped; it is still not forwarded. A call whose route is [`route::Route::Local`]
/// has no service either, and this transport never invents a result: it is answered as a refused
/// one is, since the PIN is asked for when a device bonds and not afterwards.
pub fn dispatch(line: &str, reading: Reading) -> (r: Step)
    ensures
        r.does(decided(line@, reading)),
{
    match reading {
        Reading::Unparseable(why) => Step::Answer(
            Response::err(None, Error::new(code::PARSE_ERROR, why)),
        ),
        Reading::Request(id, Err(e)) => address(id, e),
        Reading::Request(id, Ok(call)) => match route::destination_for(&call) {
            Some((upstream, lane)) => Step::Forward {
                upstream,
                lane,
                frame: framing::frame(line),
                id,
            },
            None => address(id, route::refusal(&call)),
        },
    }
}

/// The name of a service as a client sees it.
pub open spec fn upstream_name(upstream: Upstream) -> Seq<char> {
    match upstream {
        Upstream::Updater => "Updater"@,
        Upstream::Robot => "Robot"@,
        Upstream::Config => "Config"@,
    }
}

/// What a client is told about a service that did not take its request.
pub open spec fn undelivered_text(upstream: Upstream, why: Seq<char>) -> Seq<char> {
    upstream_name(upstream) + " is not answering: "@ + why
}

/// What to answer when a service could not be reached: an error naming it, if anybody expects
/// an answer.
pub fn undelivered(upstream: Upstream, id: Option<Id>, why: &str) -> (r: Step)
    ensures
        r.does(
            addressed(
                id,
                (code::INTERNAL_ERROR as int, undelivered_text(upstream, why@), None),
            ),
        ),
{
    let mut message = match upstream {
        Upstream::Updater => "Updater",
        Upstream::Robot => "Robot",
        Upstream::Config => "Config",
    }.to_owned();
    message.append(" is not answering: ");
    message.append(why);
    address(id, Error::new(code::INTERNAL_ERROR, message))
}

// ── the loop around it ───────────────────────────────────────────────────────

/// Something that happened to a session.
#[derive(Debug)]
pub enum Event {
    /// Bytes from the radio.
    Chunk(Vec<u8>),
    /// The central went away.
    Hangup,
    /// A reply or a notification from a service.
    Reply(String),
    /// No service will reply any more.
    RepliesEnded,
}

/// What the session does about it.
#[derive(Debug)]
pub enum Action {
    /// Dispatch each of these lines in turn.
    Lines(Vec<String>),
    /// Notify the central of each of these pieces in turn.
    Notify(Vec<Vec<u8>>),
    /// End the session.
    Close,
}

/// One central's session.
#[derive(Debug)]
pub struct Session {
    pub inbound: Reassembler,
    /// The largest piece the link takes, fixed for the session.
    pub mtu: usize,
}

impl Session {
    pub open spec fn wf(&self) -> bool {
        self.inbound.wf() && self.mtu > 0
    }

    /// The pieces a line is notified in: as large as the link takes, and the last with what is
    /// left.
    pub open spec fn carries(&self, pieces: Seq<Vec<u8>>, line: Seq<char>) -> bool {
        &&& framing::glued(framing::piece_views(pieces)) == framing::framed(line)
        &&& forall|i: int| 0 <= i < pieces.len() ==> 0 < (#[trigger] pieces[i])@.len() <= self.mtu
        &&& forall|i: int| 0 <= i < pieces.len() - 1 ==> (#[trigger] pieces[i])@.len() == self.mtu
    }

    pub fn new(mtu: usize) -> (r: Self)
        requires
            mtu > 0,
        ensures
            r.wf(),
            r.mtu == mtu,
            r.inbound.buffer@.len() == 0,
    {
        Session { inbound: Reassembler::new(), mtu }
    }

    /// Decide about one event. A peer that breaks framing ends the session: there is no request
    /// to answer, and it could not read the answer.
    pub fn handle(&mut self, event: Event) -> (r: Action)
        requires
            old(self).wf(),
        ensures
            final(self).wf(),
            final(self).mtu == old(self).mtu,
            match event {
                Event::Chunk(bytes) => {
                    let all = old(self).inbound.buffer@ + bytes@;
                    &&& final(self).inbound.buffer@ == framing::unfinished(all)
                    &&& r is Close <==> !framing::all_utf8(framing::complete(all))
                    &&& r !is Close ==> (r matches Action::Lines(lines)
                        && framing::bytes_of(lines@) == framing::complete(all))
                },
                Event::Reply(line) => {
                    &&& final(self).inbound == old(self).inbound
                    &&& r matches Action::Notify(pieces)
                    &&& old(self).carries(pieces@, line@)
                },
                Event::Hangup | Event::RepliesEnded => {
                    &&& final(self).inbound == old(self).inbound
                    &&& r is Close
                },
            },
    {
        match event {
            Event::Chunk(bytes) => match self.inbound.push(bytes.as_slice()) {
                Ok(lines) => Action::Lines(lines),
                Err(FramingError::NotUtf8) => Action::Close,
            },
            Event::Reply(line) => Action::Notify(framing::chunks(line.as_str(), self.mtu)),
            Event::Hangup => Action::Close,
            Event::RepliesEnded => Action::Close,
        }
    }

    /// How many bytes of an unfinished line a session ended with, if any: the difference
    /// between a client that left and one that vanished.
    pub fn cut_short(&self) -> (r: Option<usize>)
        ensures
            r == if self.inbound.buffer@.len() > 0 {
                Some(self.inbound.buffer@.len() as usize)
            } else {
                None
            },
    {
        let pending = self.inbound.pending();
        if pending > 0 {
            Some(pending)
        } else {
            None
        }
    }
}

// ── what a session keeps ─────────────────────────────────────────────────────

/// A refused call never reaches a service, whether or not anybody is told.
pub proof fn a_refused_call_is_never_forwarded(line: Seq<char>, id: Option<Id>, call: Call)
    requires
        route::destination(&call) is None,
    ensures
        !(decided(line, Reading::Request(id, Ok(call))) is Forward),
{
}

/// A call that the transport has to answer itself reaches no service. It is answered with the
/// refusal, and as a notification with silence.
pub proof fn a_local_call_is_answered_here(line: Seq<char>, id: Option<Id>, call: Call)
    requires
        route::route(&call) is Local,
    ensures
        decided(line, Reading::Request(id, Ok(call))) == addressed(
            id,
            (code::PERMISSION_DENIED as int, route::refusal_text(call.method_name()), None),
        ),
        !(decided(line, Reading::Request(id, Ok(call))) is Forward),
{
}

/// A request that can be answered is answered or forwarded, never dropped; a notification is
/// never answered.
pub proof fn only_notifications_meet_silence(
    line: Seq<char>,
    id: Option<Id>,
    call: Result<Call, Error>,
)
    ensures
        id is Some ==> !(decided(line, Reading::Request(id, call)) is Silence),
        id is None ==> !(decided(line, Reading::Request(id, call)) is Answer),
{
}

/// An answer carries the identifier it answers, and a line nobody could read is answered with
/// none.
pub proof fn answers_carry_their_identifier(line: Seq<char>, reading: Reading)
    ensures
        decided(line, reading) matches StepView::Answer { id, .. } ==> match reading {
            Reading::Request(asked, _) => id == asked && id is Some,
            Reading::Unparseable(_) => id is None,
        },
{
}

/// What is forwarded is the line that came, byte for byte, and the service that receives it
/// reads exactly that line.
pub proof fn forwarding_is_verbatim(line: Seq<char>, reading: Reading)
    requires
        !line.contains('\n'),
    ensures
        decided(line, reading) matches StepView::Forward { frame, .. } ==> {
            &&& frame == vstd::utf8::encode_utf8(line).push(10)
            &&& framing::complete(frame) == seq![vstd::utf8::encode_utf8(line)]
            &&& framing::unfinished(frame).len() == 0
        },
{
    let pieces = seq![framing::framed(line)];
    assert(pieces.drop_last() == Seq::<Seq<u8>>::empty());
    assert(framing::glued(pieces) == framing::framed(line)) by {
        reveal_with_fuel(framing::glued, 2);
        assert(Seq::<u8>::empty() + framing::framed(line) == framing::framed(line));
    }
    framing::a_line_arrives_whole(line, pieces);
    framing::pieces_give_the_lines_of_the_whole(pieces);
}

/// Where a request goes is the route's decision alone: it is forwarded exactly when a service
/// answers that call, to that service, on that lane, and under its own identifier.
pub proof fn a_request_goes_where_its_route_says(line: Seq<char>, id: Option<Id>, call: Call)
    ensures
        decided(line, Reading::Request(id, Ok(call))) is Forward <==> route::destination(
            &call,
        ) is Some,
        decided(line, Reading::Request(id, Ok(call))) matches StepView::Forward {
            upstream,
            lane,
            id: carried,
            ..
        } ==> route::destination(&call) == Some((upstream, lane)) && carried == id,
{
}

/// A line nobody could read, a request that is none and a call that is refused are answered with
/// different errors: what could not be read, the request's own, and that it may not be made.
pub proof fn each_refusal_is_answered_with_its_own_error(
    line: Seq<char>,
    id: Id,
    why: String,
    e: Error,
    call: Call,
)
    ensures
        decided(line, Reading::Unparseable(why)) matches StepView::Answer { error, .. } && error.0
            == -32700 && error.1 == why@ && error.2 is None,
        decided(line, Reading::Request(Some(id), Err(e))) matches StepView::Answer { error, .. }
            && error.0 == e.code && error.1 == e.message@ && error.2 == e.data,
        route::destination(&call) is None ==> (decided(
            line,
            Reading::Request(Some(id), Ok(call)),
        ) matches StepView::Answer { error, .. } && error.0 == 14
            && call.method_name().is_prefix_of(error.1) && error.2 is None),
{
    route::a_refusal_names_its_method(call.method_name());
}

/// A step that answers is a well-formed error response to whoever asked, and a step that forwards
/// writes exactly the bytes it was decided to.
pub proof fn a_step_does_one_thing(step: Step, v: StepView)
    requires
        step.does(v),
    ensures
        step is Answer <==> v is Answer,
        step is Silence <==> v is Silence,
        step is Forward <==> v is Forward,
        step matches Step::Answer(r) ==> r.jsonrpc@ == "2.0"@ && r.result is None && r.error is Some
            && r.id == v->Answer_id && r.error->0.code == v->error.0 && r.error->0.message@
            == v->error.1 && r.error->0.data == v->error.2,
        step matches Step::Forward { upstream, lane, frame, id } ==> upstream == v->upstream && lane
            == v->lane && frame@ == v->frame && id == v->Forward_id,
{
}

/// A client is told which service did not take its request, and why; no two services go by one
/// name.
pub proof fn the_silent_service_is_named(a: Upstream, b: Upstream, why: Seq<char>, other: Seq<char>)
    ensures
        upstream_name(a) == upstream_name(b) <==> a == b,
        text::differ_behind(
            undelivered_text(a, why),
            undelivered_text(a, other),
            upstream_name(a) + " is not answering: "@,
            why,
            other,
        ),
        undelivered_text(a, why) == upstream_name(a) + " is not answering: "@ + why,
{
    let none = Seq::<char>::empty();
    reveal_strlit("Updater");
    reveal_strlit("Robot");
    reveal_strlit("Config");
    assert("Updater"@.len() == 7 && "Robot"@.len() == 5 && "Config"@.len() == 6);
    let label = upstream_name(a) + " is not answering: "@;
    text::a_change_behind_a_label(none, label, why, other, none);
    assert(undelivered_text(a, why) =~= none + label + why + none);
    assert(undelivered_text(a, other) =~= none + label + other + none);
}

/// A reply that is notified arrives whole: the pieces it is cut into, gathered again, are that
/// one line and nothing is left over; and no piece is empty or more than the link takes.
pub proof fn what_is_notified_arrives_whole(session: Session, pieces: Seq<Vec<u8>>, line: Seq<char>)
    requires
        session.carries(pieces, line),
        !line.contains('\n'),
    ensures
        framing::handed_out(framing::piece_views(pieces)) == seq![vstd::utf8::encode_utf8(line)],
        framing::waiting(framing::piece_views(pieces)).len() == 0,
        forall|i: int|
            0 <= i < pieces.len() ==> 0 < (#[trigger] pieces[i])@.len() <= session.mtu,
        forall|i: int, j: int|
            0 <= i < j < pieces.len() ==> (#[trigger] pieces[i])@.len() >= (
            #[trigger] pieces[j])@.len(),
{
    framing::a_line_arrives_whole(line, framing::piece_views(pieces));
}

/// An error is answered with its code, its message and its data.
pub proof fn an_error_is_answered_whole(e: Error, id: Id)
    ensures
        error_view(e) == (e.code as int, e.message@, e.data),
        addressed(Some(id), error_view(e)) == (StepView::Answer {
            id: Some(id),
            error: (e.code as int, e.message@, e.data),
        }),
        addressed(None, error_view(e)) is Silence,
{
}

} // verus!
