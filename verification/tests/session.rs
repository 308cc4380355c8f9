use duck::code;
use duck::framing::{chunks, frame, FramingError, Reassembler};
use duck::method;
use duck::proto::{
    AuthenticateParams, Call, ComponentId, ComponentParams, Error, HelloParams, Id, Response,
    API_VERSION,
};
use duck::route::{route_for, Lane, Route, Upstream};
use duck::session::{dispatch, undelivered, Action, Event, Reading, Session, Step};
use duck::upstream::{Pool, Sockets, Written};

/// Reads a line the way the transport does: a request, the call in it, or what is wrong.
fn read(line: &str) -> Reading {
    let value: serde_json::Value = match serde_json::from_str(line) {
        Ok(value) => value,
        Err(e) => return Reading::Unparseable(e.to_string()),
    };
    let id = value.get("id").map(|id| match id.as_u64() {
        Some(n) => Id::Number(n),
        None => Id::Text(id.as_str().unwrap().to_owned()),
    });
    let params = value.get("params");
    let name = value.get("method").and_then(|m| m.as_str()).unwrap();
    let component = || ComponentParams {
        component: ComponentId::new(
            params
                .and_then(|p| p.get("component"))
                .and_then(|c| c.as_str())
                .unwrap(),
        ),
    };
    let call = match name {
        method::HELLO => Ok(Call::Hello(HelloParams {
            api_version: params
                .and_then(|p| p.get("api_version"))
                .and_then(|v| v.as_u64())
                .unwrap() as u32,
        })),
        method::RESET_TO_GOLDEN => Ok(Call::ResetToGolden(component())),
        method::ROBOT_HEALTH => Ok(Call::RobotHealth),
        method::SUBSCRIBE => Ok(Call::Subscribe),
        other => Err(Error::new(
            code::METHOD_NOT_FOUND,
            format!("unknown method {other}"),
        )),
    };
    Reading::Request(id, call)
}

fn show(id: &Option<Id>) -> String {
    match id {
        None => "null".into(),
        Some(Id::Number(n)) => format!("{n}"),
        Some(Id::Text(t)) => format!("{t:?}"),
    }
}

/// The line a refusal is answered with.
fn encode(response: &Response) -> String {
    let error = response.error.as_ref().expect("only errors are answered here");
    assert!(response.result.is_none());
    format!(
        r#"{{"jsonrpc":"{}","id":{},"error":{{"code":{},"message":{:?}}}}}"#,
        response.jsonrpc,
        show(&response.id),
        error.code,
        error.message
    )
}

/// One session wired to two daemons that record what they receive and reply as told.
struct Rig {
    session: Session,
    pool: Pool,
    updater_seen: Vec<String>,
    robot_seen: Vec<String>,
    updater_replies: Vec<String>,
    robot_replies: Vec<String>,
    robot_is_up: bool,
    client: Reassembler,
    notified: Vec<Vec<u8>>,
    open: bool,
}

impl Rig {
    fn new(mtu: usize, updater_replies: Vec<String>, robot_replies: Vec<String>) -> Self {
        Rig {
            session: Session::new(mtu),
            pool: Pool::new(Sockets {
                updater: "updaterd.sock".into(),
                robot: "robotd.sock".into(),
                config: "configd.sock".into(),
            }),
            updater_seen: Vec::new(),
            robot_seen: Vec::new(),
            updater_replies,
            robot_replies,
            robot_is_up: true,
            client: Reassembler::new(),
            notified: Vec::new(),
            open: true,
        }
    }

    fn notify(&mut self, line: String) {
        match self.session.handle(Event::Reply(line)) {
            Action::Notify(pieces) => self.notified.extend(pieces),
            other => panic!("{other:?}"),
        }
    }

    fn deliver(&mut self, upstream: Upstream, lane: Lane, bytes: Vec<u8>) -> Result<(), String> {
        if let Some(path) = self.pool.missing(upstream, lane) {
            if upstream == Upstream::Robot && !self.robot_is_up {
                assert_eq!(path, "robotd.sock");
                return Err("No such file or directory (os error 2)".into());
            }
            self.pool.connected(upstream, lane);
        }
        assert_eq!(self.pool.missing(upstream, lane), None);
        let mut daemon = Reassembler::new();
        let lines = daemon.push(&bytes).unwrap();
        assert_eq!(daemon.pending(), 0);
        let replies = match upstream {
            Upstream::Updater => {
                self.updater_seen.extend(lines);
                self.updater_replies.clone()
            }
            _ => {
                self.robot_seen.extend(lines);
                self.robot_replies.clone()
            }
        };
        self.pool.written(upstream, lane, Written::Done)?;
        for reply in replies {
            self.notify(reply);
        }
        Ok(())
    }

    fn send(&mut self, bytes: &[u8]) {
        match self.session.handle(Event::Chunk(bytes.to_vec())) {
            Action::Lines(lines) => {
                for line in lines {
                    let step = match dispatch(&line, read(&line)) {
                        Step::Forward {
                            upstream,
                            lane,
                            frame,
                            id,
                        } => match self.deliver(upstream, lane, frame) {
                            Ok(()) => continue,
                            Err(why) => undelivered(upstream, id, &why),
                        },
                        step => step,
                    };
                    match step {
                        Step::Answer(response) => self.notify(encode(&response)),
                        Step::Silence => {}
                        other => panic!("{other:?}"),
                    }
                }
            }
            Action::Close => self.open = false,
            other => panic!("{other:?}"),
        }
    }

    /// The next reply, put together from its pieces as a client would.
    fn reply(&mut self) -> String {
        loop {
            let piece = self.notified.remove(0);
            if let Some(line) = self.client.push(&piece).expect("framing").into_iter().next() {
                return line;
            }
        }
    }
}

#[test]
fn an_allowed_call_is_forwarded_verbatim_and_answered() {
    let mut rig = Rig::new(
        23,
        vec![r#"{"jsonrpc":"2.0","id":1,"result":{"api_version":2,"daemon_version":"0.1.4","revision":null}}"#.into()],
        vec![],
    );

    let request = r#"{"jsonrpc":"2.0","id":1,"method":"hello","params":{"api_version":2}}"#;
    rig.send(request.as_bytes());
    assert!(rig.updater_seen.is_empty(), "forwarded before it was complete");
    rig.send(b"\n");

    assert_eq!(
        rig.updater_seen,
        vec![request.to_owned()],
        "not forwarded byte for byte"
    );
    assert!(rig.reply().contains(r#""api_version":2"#));
}

#[test]
fn a_refused_call_never_reaches_the_daemon() {
    let mut rig = Rig::new(23, vec![], vec![]);

    rig.send(
        format!("{}\n", r#"{"jsonrpc":"2.0","id":9,"method":"update.resetToGolden","params":{"component":"daemon"}}"#)
            .as_bytes(),
    );

    let reply = rig.reply();
    assert!(
        reply.contains(&code::PERMISSION_DENIED.to_string()),
        "{reply}"
    );
    assert!(reply.contains(r#""id":9"#), "{reply}");
    assert!(rig.updater_seen.is_empty(), "a refused call was forwarded");
}

#[test]
fn robot_calls_go_to_robotd() {
    let mut rig = Rig::new(
        185,
        vec![],
        vec![r#"{"jsonrpc":"2.0","id":2,"result":{"healthy":true}}"#.into()],
    );

    rig.send(b"{\"jsonrpc\":\"2.0\",\"id\":2,\"method\":\"robot.health\"}\n");

    assert!(rig.robot_seen[0].contains("robot.health"));
    assert!(rig.reply().contains(r#""healthy":true"#));
    assert!(
        rig.updater_seen.is_empty(),
        "robotd's call went to updaterd"
    );
}

#[test]
fn every_notification_in_a_stream_reaches_the_client() {
    let progress: Vec<String> = (0..3)
        .map(|i| format!(
            r#"{{"jsonrpc":"2.0","method":"update.progress","params":{{"component":"daemon","phase":"downloading","percent":{},"detail":null}}}}"#,
            i * 50
        ))
        .collect();
    let mut rig = Rig::new(23, progress, vec![]);

    rig.send(b"{\"jsonrpc\":\"2.0\",\"id\":3,\"method\":\"update.subscribe\"}\n");

    // A small MTU means each of these arrives in several pieces.
    assert!(rig.notified.len() > 3);
    assert!(rig.notified.iter().all(|piece| piece.len() <= 23));
    // Every piece is full but the one that ends a line.
    assert!(rig
        .notified
        .iter()
        .all(|piece| piece.len() == 23 || piece.ends_with(b"\n")));
    for expected in [0, 50, 100] {
        let line = rig.reply();
        assert!(line.contains(&format!(r#""percent":{expected}"#)), "{line}");
    }
}

#[test]
fn an_unparseable_line_is_answered_and_the_session_survives() {
    let mut rig = Rig::new(
        185,
        vec![r#"{"jsonrpc":"2.0","id":1,"result":{"api_version":2,"daemon_version":null,"revision":null}}"#.into()],
        vec![],
    );

    rig.send(b"not json at all\n");
    let reply = rig.reply();
    assert!(reply.contains(&code::PARSE_ERROR.to_string()), "{reply}");
    assert!(reply.contains(r#""id":null"#), "{reply}");
    assert!(rig.open);

    // Still usable.
    rig.send(b"{\"jsonrpc\":\"2.0\",\"id\":1,\"method\":\"hello\",\"params\":{\"api_version\":2}}\n");
    assert!(rig.reply().contains(r#""api_version":2"#));
}

#[test]
fn a_dead_daemon_is_reported_rather_than_hanging() {
    let mut rig = Rig::new(185, vec![], vec![]);
    rig.robot_is_up = false;

    rig.send(b"{\"jsonrpc\":\"2.0\",\"id\":4,\"method\":\"robot.health\"}\n");

    let reply = rig.reply();
    assert!(reply.contains("Robot is not answering"), "{reply}");
    assert!(reply.contains(&code::INTERNAL_ERROR.to_string()), "{reply}");
}

#[test]
fn a_refused_notification_is_answered_with_silence() {
    let mut rig = Rig::new(185, vec![], vec![]);

    rig.send(
        format!("{}\n", r#"{"jsonrpc":"2.0","method":"update.resetToGolden","params":{"component":"daemon"}}"#)
            .as_bytes(),
    );

    assert!(rig.notified.is_empty(), "a notification was answered");
    assert!(
        rig.updater_seen.is_empty(),
        "a refused notification was forwarded"
    );
}

/// The identifier of a request comes back as it was, text or number.
#[test]
fn an_unknown_method_is_answered_with_the_error_it_was_read_with() {
    let line = r#"{"jsonrpc":"2.0","id":"a-1","method":"robot.fly"}"#;
    match dispatch(line, read(line)) {
        Step::Answer(response) => {
            assert_eq!(response.id, Some(Id::Text("a-1".into())));
            let error = response.error.unwrap();
            assert_eq!(error.code, code::METHOD_NOT_FOUND);
            assert_eq!(error.message, "unknown method robot.fly");
        }
        other => panic!("{other:?}"),
    }
}

/// A dead service is not reported to a notification, which expects no answer.
#[test]
fn an_undelivered_notification_is_silent() {
    assert!(matches!(
        undelivered(Upstream::Config, None, "gone"),
        Step::Silence
    ));
    match undelivered(Upstream::Config, Some(Id::Number(1)), "gone") {
        Step::Answer(r) => assert_eq!(r.error.unwrap().message, "Config is not answering: gone"),
        other => panic!("{other:?}"),
    }
    match undelivered(Upstream::Updater, Some(Id::Number(1)), "gone") {
        Step::Answer(r) => assert_eq!(r.error.unwrap().message, "Updater is not answering: gone"),
        other => panic!("{other:?}"),
    }
}

/// Bytes that are not text end the session; so does either side going away.
#[test]
fn broken_framing_ends_the_session() {
    let mut rig = Rig::new(185, vec![], vec![]);
    rig.send(&[0xff, 0xfe, b'\n']);
    assert!(!rig.open);
    assert!(rig.notified.is_empty());

    let mut session = Session::new(20);
    assert!(matches!(session.handle(Event::Hangup), Action::Close));
    assert!(matches!(session.handle(Event::RepliesEnded), Action::Close));
}

#[test]
fn a_session_cut_short_knows_it() {
    let mut session = Session::new(20);
    assert_eq!(session.cut_short(), None);
    let _ = session.handle(Event::Chunk(b"half a li".to_vec()));
    assert_eq!(session.cut_short(), Some(9));
    let _ = session.handle(Event::Chunk(b"ne\n".to_vec()));
    assert_eq!(session.cut_short(), None);
}

// ── framing ──────────────────────────────────────────────────────────────────

/// A line cut anywhere arrives whole.
#[test]
fn a_line_survives_being_cut() {
    let line = "{\"name\":\"canard — \u{1f986}\"}";
    for mtu in 1..40 {
        let pieces = chunks(line, mtu);
        assert!(pieces.iter().all(|p| !p.is_empty() && p.len() <= mtu));
        assert_eq!(pieces.concat(), frame(line));
        let mut r = Reassembler::new();
        let mut got = Vec::new();
        for piece in &pieces {
            got.extend(r.push(piece).unwrap());
        }
        assert_eq!(got, vec![line.to_owned()]);
        assert_eq!(r.pending(), 0);
    }
}

#[test]
fn one_piece_may_complete_several_lines() {
    let mut r = Reassembler::new();
    assert_eq!(r.push(b"a\n\nb").unwrap(), vec!["a", ""]);
    assert_eq!(r.pending(), 1);
    assert_eq!(r.push(b"c\nd\n").unwrap(), vec!["bc", "d"]);
    assert_eq!(r.pending(), 0);
    assert_eq!(r.push(b"").unwrap(), Vec::<String>::new());
}

#[test]
fn an_empty_line_is_a_line_feed() {
    assert_eq!(frame(""), vec![10u8]);
    assert_eq!(chunks("", 5), vec![vec![10u8]]);
    assert_eq!(
        chunks("abcde", 3),
        vec![b"abc".to_vec(), b"de\n".to_vec()]
    );
}

#[test]
fn a_line_that_is_not_text_is_refused() {
    let mut r = Reassembler::new();
    assert_eq!(r.push(&[0xff, b'\n']), Err(FramingError::NotUtf8));
    // Half of a character is not an error until the line ends.
    let mut r = Reassembler::new();
    assert_eq!(r.push(&[0xc3]).unwrap(), Vec::<String>::new());
    assert_eq!(r.push(&[0xa9, b'\n']).unwrap(), vec!["é"]);
}

// ── connections ──────────────────────────────────────────────────────────────

/// A connection is made once, and made again after it failed.
#[test]
fn a_failed_connection_is_dropped() {
    let mut pool = Pool::new(Sockets {
        updater: "u".into(),
        robot: "r".into(),
        config: "c".into(),
    });
    assert_eq!(pool.missing(Upstream::Config, Lane::Prompt), Some("c"));
    pool.connected(Upstream::Config, Lane::Prompt);
    pool.connected(Upstream::Updater, Lane::Operation);
    assert_eq!(pool.missing(Upstream::Config, Lane::Prompt), None);
    // Another lane is another connection.
    assert_eq!(pool.missing(Upstream::Config, Lane::Operation), Some("c"));
    assert_eq!(pool.missing(Upstream::Robot, Lane::Prompt), Some("r"));

    assert_eq!(
        pool.written(
            Upstream::Config,
            Lane::Prompt,
            Written::Failed("broken pipe".into())
        ),
        Err("broken pipe".to_owned())
    );
    assert_eq!(pool.missing(Upstream::Config, Lane::Prompt), Some("c"));
    assert_eq!(pool.missing(Upstream::Updater, Lane::Operation), None);

    assert_eq!(
        pool.written(Upstream::Updater, Lane::Operation, Written::TimedOut),
        Err("upstream write timed out".to_owned())
    );
    assert_eq!(pool.missing(Upstream::Updater, Lane::Operation), Some("u"));
    assert_eq!(
        pool.written(Upstream::Updater, Lane::Operation, Written::Done),
        Ok(())
    );
}

/// The version this library speaks.
#[test]
fn the_protocol_is_at_version_two() {
    assert_eq!(API_VERSION, 2);
}

/// The one call the transport would answer itself reaches no service.
#[test]
fn a_local_call_is_answered_here() {
    let call = || {
        Call::SystemAuthenticate(AuthenticateParams {
            pin: "000000".to_owned(),
        })
    };
    assert_eq!(route_for(&call()), Route::Local);
    let asked = Reading::Request(Some(Id::Number(7)), Ok(call()));
    match dispatch("{}", asked) {
        Step::Answer(response) => {
            assert_eq!(response.id, Some(Id::Number(7)));
            assert_eq!(response.error.unwrap().code, code::PERMISSION_DENIED);
        }
        other => panic!("{other:?}"),
    }
    assert!(matches!(
        dispatch("{}", Reading::Request(None, Ok(call()))),
        Step::Silence
    ));
}
