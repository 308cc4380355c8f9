//! One conversation with a daemon: what is asked, which of the lines that come back is the
//! answer, and what a failure is called.
use vstd::prelude::*;

use crate::code;
use crate::exit;
use crate::proto::{Error, HelloResult, Id, Progress, Response};
use crate::text;

verus! {

/// An error carrying the exit code it should produce.
#[derive(Debug, PartialEq, Eq)]
pub struct Failure {
    pub code: u8,
    pub message: String,
}

/// The exit code for a daemon's error code. It keeps the distinctions a script branches on:
/// retry while busy, and a request that was correctly rejected is not a malfunction.
pub open spec fn exit_for(error: int) -> u8 {
    if error == code::BUSY {
        exit::BUSY
    } else if error == code::INCOMPATIBLE || error == code::PREFLIGHT_FAILED || error
        == code::VERIFICATION_FAILED || error == code::WOULD_DOWNGRADE || error
        == code::NOT_INSTALLED || error == code::ARCHIVE_TOO_LARGE {
        exit::REFUSED
    } else if error == code::PERMISSION_DENIED {
        exit::DENIED
    } else if error == code::PROTOCOL_MISMATCH {
        exit::USAGE
    } else {
        exit::FAILED
    }
}

impl Failure {
    pub fn new(code: u8, message: String) -> (r: Self)
        ensures
            r.code == code,
            r.message == message,
    {
        Failure { code, message }
    }

    /// An exit code with nothing to say, for a command that has printed its own answer.
    pub fn silent(code: u8) -> (r: Self)
        ensures
            r.code == code,
            r.message@.len() == 0,
    {
        Failure { code, message: String::new() }
    }

    /// A daemon's error as this command's.
    pub fn from_rpc(error: Error) -> (r: Self)
        ensures
            r.code == exit_for(error.code as int),
            r.message == error.message,
    {
        let c = error.code;
        let code: u8 = if c == code::BUSY {
            exit::BUSY
        } else if c == code::INCOMPATIBLE || c == code::PREFLIGHT_FAILED || c
            == code::VERIFICATION_FAILED || c == code::WOULD_DOWNGRADE || c == code::NOT_INSTALLED
            || c == code::ARCHIVE_TOO_LARGE {
            exit::REFUSED
        } else if c == code::PERMISSION_DENIED {
            exit::DENIED
        } else if c == code::PROTOCOL_MISMATCH {
            exit::USAGE
        } else {
            exit::FAILED
        };
        Failure { code, message: error.message }
    }

    /// What the command prints about the failure on its way out, if anything.
    pub fn report(&self) -> (r: Option<String>)
        ensures
            r is Some <==> self.message@.len() > 0,
            r matches Some(line) ==> line@ == "error: "@ + self.message@,
    {
        if self.message.as_str().is_empty() {
            None
        } else {
            Some("error: ".to_owned().concat(self.message.as_str()))
        }
    }
}

/// A terminal that cannot be drawn to.
pub fn terminal_failure(why: &str) -> (r: Failure)
    ensures
        r.code == exit::FAILED,
        r.message@ == "terminal error: "@ + why@,
{
    Failure::new(exit::FAILED, "terminal error: ".to_owned().concat(why))
}

/// What is said of a daemon that does not answer: which one, where, and how to look at it.
pub open spec fn unreachable_text(service: Seq<char>, path: Seq<char>, why: Seq<char>) -> Seq<
    char,
> {
    "cannot reach "@ + service + " at "@ + path + ": "@ + why
        + "\nIs the service running?  systemctl status "@ + service
}

/// A daemon that could not be connected to.
pub fn unreachable(service: &str, path: &str, why: &str) -> (r: Failure)
    ensures
        r.code == exit::UNREACHABLE,
        r.message@ == unreachable_text(service@, path@, why@),
{
    let mut m = "cannot reach ".to_owned();
    m.append(service);
    m.append(" at ");
    m.append(path);
    m.append(": ");
    m.append(why);
    m.append("\nIs the service running?  systemctl status ");
    m.append(service);
    Failure::new(exit::UNREACHABLE, m)
}

/// Where a request went wrong before it was sent.
#[derive(Debug, Clone, Copy, PartialEq, Eq, Structural)]
pub enum Sending {
    /// The connection could not be used in both directions.
    Splitting,
    /// The request could not be written down.
    Encoding,
    /// The request could not be sent.
    Writing,
}

/// What a request that was not sent is called.
pub fn not_sent(at: Sending, why: &str) -> (r: Failure)
    ensures
        r.code == if at == Sending::Writing {
            exit::UNREACHABLE
        } else {
            exit::FAILED
        },
        r.message@ == match at {
            Sending::Splitting => "could not split the socket: "@,
            Sending::Encoding => "could not encode request: "@,
            Sending::Writing => "could not send request: "@,
        } + why@,
{
    let (code, what): (u8, &str) = match at {
        Sending::Splitting => (exit::FAILED, "could not split the socket: "),
        Sending::Encoding => (exit::FAILED, "could not encode request: "),
        Sending::Writing => (exit::UNREACHABLE, "could not send request: "),
    };
    Failure::new(code, what.to_owned().concat(why))
}

/// The identifiers of one connection.
#[derive(Debug)]
pub struct Client {
    pub next_id: u64,
}

impl Client {
    pub fn new() -> (r: Self)
        ensures
            r.next_id == 1,
    {
        Client { next_id: 1 }
    }

    /// An identifier no earlier request of this connection had.
    pub fn take_id(&mut self) -> (r: Id)
        requires
            old(self).next_id < u64::MAX,
        ensures
            r == Id::Number(old(self).next_id),
            final(self).next_id == old(self).next_id + 1,
    {
        let id = self.next_id;
        self.next_id = self.next_id + 1;
        Id::Number(id)
    }
}

/// What came while waiting for an answer.
#[derive(Debug)]
pub enum Heard {
    /// The connection broke.
    Lost(String),
    /// The daemon closed it.
    Closed,
    /// An empty line.
    Blank,
    /// A notification, with the progress in it if it is one.
    Note(Option<Progress>),
    /// A line that is neither a notification nor a response: what is wrong with it, and it.
    Malformed { why: String, line: String },
    Answer(Response),
}

/// What to do about it.
#[derive(Debug)]
pub enum Waiting {
    /// Read the next line.
    Continue,
    /// Show this progress, then read the next line.
    Report(Progress),
    /// This is the answer.
    Done(Response),
    Fail(Failure),
}

/// Is the line blank, once the whitespace around it is gone?
pub fn is_blank(line: &str) -> (r: bool)
    ensures
        r == (text::trimmed(line@).len() == 0),
{
    text::trim(line).as_str().is_empty()
}

/// Is this the answer to the request with this identifier?
pub open spec fn answers(response: Response, id: Id) -> bool {
    response.id matches Some(i) && i@ == id@
}

/// Decide about one line. Notifications carry no identifier and cannot be the answer, and a
/// response to another request is ignored.
pub fn consider(id: &Id, heard: Heard) -> (r: Waiting)
    ensures
        match heard {
            Heard::Lost(why) => r matches Waiting::Fail(f) && f.code == exit::UNREACHABLE
                && f.message@ == "connection lost: "@ + why@,
            Heard::Closed => r matches Waiting::Fail(f) && f.code == exit::UNREACHABLE
                && f.message@ == "updaterd closed the connection"@,
            Heard::Blank => r is Continue,
            Heard::Note(Some(progress)) => r == Waiting::Report(progress),
            Heard::Note(None) => r is Continue,
            Heard::Malformed { why, line } => r matches Waiting::Fail(f) && f.code == exit::FAILED
                && f.message@ == "malformed response: "@ + why@ + ": "@ + line@,
            Heard::Answer(response) => if answers(response, *id) {
                r == Waiting::Done(response)
            } else {
                r is Continue
            },
        },
        r matches Waiting::Done(response) ==> heard == Heard::Answer(response) && response.id is Some
            && response.id->0@ == id@,
        r is Fail <==> heard is Lost || heard is Closed || heard is Malformed,
        r is Report ==> heard is Note,
{
    match heard {
        Heard::Lost(why) => Waiting::Fail(
            Failure::new(exit::UNREACHABLE, "connection lost: ".to_owned().concat(why.as_str())),
        ),
        Heard::Closed => Waiting::Fail(
            Failure::new(exit::UNREACHABLE, "updaterd closed the connection".to_owned()),
        ),
        Heard::Blank => Waiting::Continue,
        Heard::Note(Some(progress)) => Waiting::Report(progress),
        Heard::Note(None) => Waiting::Continue,
        Heard::Malformed { why, line } => {
            let mut m = "malformed response: ".to_owned();
            m.append(why.as_str());
            m.append(": ");
            m.append(line.as_str());
            Waiting::Fail(Failure::new(exit::FAILED, m))
        },
        Heard::Answer(response) => {
            let ours = match &response.id {
                Some(i) => i.is(id),
                None => false,
            };
            if ours {
                Waiting::Done(response)
            } else {
                Waiting::Continue
            }
        },
    }
}

/// What a daemon said about itself, from the error and the decoded result of its answer.
pub fn hello_result(error: Option<Error>, result: Option<HelloResult>) -> (r: Result<
    HelloResult,
    Failure,
>)
    ensures
        match (error, result) {
            (Some(e), _) => r matches Err(f) && f.code == exit::FAILED && f.message@ == e.message@
                + "\nrobotctl and updaterd are out of step; install matching versions."@,
            (None, Some(hello)) => r == Ok::<HelloResult, Failure>(hello),
            (None, None) => r matches Err(f) && f.code == exit::FAILED && f.message@
                == "daemon answered hello in an unexpected shape"@,
        },
        r is Ok <==> error is None && result is Some,
{
    match (error, result) {
        (Some(e), _) => Err(
            Failure::new(
                exit::FAILED,
                e.message.concat(
                    "\nrobotctl and updaterd are out of step; install matching versions.",
                ),
            ),
        ),
        (None, Some(hello)) => Ok(hello),
        (None, None) => Err(
            Failure::new(
                exit::FAILED,
                "daemon answered hello in an unexpected shape".to_owned(),
            ),
        ),
    }
}

/// A response becomes its result, or the failure the daemon reported. `Ok(None)` is a result
/// that was not there.
pub fn result_of(response: Response) -> (r: Result<Option<serde_json::Value>, Failure>)
    ensures
        match response.error {
            Some(e) => r matches Err(f) && f.code == exit_for(e.code as int) && f.message
                == e.message,
            None => r == Ok::<Option<serde_json::Value>, Failure>(response.result),
        },
{
    match response.error {
        Some(error) => Err(Failure::from_rpc(error)),
        None => Ok(response.result),
    }
}

/// A result of another shape than expected, which means two builds of different revisions.
pub fn undecodable(why: &str) -> (r: Failure)
    ensures
        r.code == exit::FAILED,
        r.message@ == "cannot read the daemon's answer ("@ + why@
            + "). Are robotctl and configd the same build?"@,
{
    let mut m = "cannot read the daemon's answer (".to_owned();
    m.append(why);
    m.append("). Are robotctl and configd the same build?");
    Failure::new(exit::FAILED, m)
}

// ── what a failure keeps ─────────────────────────────────────────────────────

/// Which errors of a daemon a script can tell apart by the exit code: one to retry, the requests
/// that were understood and turned down, one that may not be made, and one that two builds out of
/// step make. Every other error is a failure, and none is a success.
pub proof fn each_error_has_its_exit_code(error: int)
    ensures
        exit_for(error) == 4 <==> error == 1,
        exit_for(error) == 5 <==> (error == 4 || error == 6 || error == 7 || error == 11 || error
            == 12 || error == 13),
        exit_for(error) == 6 <==> error == 14,
        exit_for(error) == 2 <==> error == 3,
        exit_for(error) == 1 <==> !(error == 1 || error == 3 || error == 4 || error == 6 || error
            == 7 || 11 <= error <= 14),
{
}

/// A daemon that does not answer is named, with the place it was looked for and why, and again in
/// what to look at next. Another place or reason changes nothing else.
pub proof fn an_unreachable_daemon_is_named(
    service: Seq<char>,
    path: Seq<char>,
    why: Seq<char>,
    other: Seq<char>,
)
    ensures
        text::differ_behind(
            unreachable_text(service, path, why),
            unreachable_text(service, other, why),
            "cannot reach "@ + service + " at "@,
            path,
            other,
        ),
        text::differ_behind(
            unreachable_text(service, path, why),
            unreachable_text(service, path, other),
            ": "@,
            why,
            other,
        ),
        ("\nIs the service running?  systemctl status "@ + service).is_suffix_of(
            unreachable_text(service, path, why),
        ),
{
    let none = Seq::<char>::empty();
    let start = "cannot reach "@ + service + " at "@;
    let end = "\nIs the service running?  systemctl status "@ + service;
    let t = unreachable_text(service, path, why);
    text::a_change_behind_a_label(none, start, path, other, ": "@ + why + end);
    assert(t =~= none + start + path + (": "@ + why + end));
    assert(unreachable_text(service, other, why) =~= none + start + other + (": "@ + why + end));
    text::a_change_behind_a_label(start + path, ": "@, why, other, end);
    assert(t =~= start + path + ": "@ + why + end);
    assert(unreachable_text(service, path, other) =~= start + path + ": "@ + other + end);
    assert(t.subrange(t.len() - end.len(), t.len() as int) =~= end);
}

/// A response answers one request at most: the one whose identifier it carries. One without an
/// identifier answers none.
pub proof fn a_response_answers_one_request(response: Response, a: Id, b: Id)
    ensures
        response.id is None ==> !answers(response, a),
        response.id == Some(a) ==> answers(response, a),
        answers(response, a) && answers(response, b) ==> a@ == b@,
{
}

} // verus!
