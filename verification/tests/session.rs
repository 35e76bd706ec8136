use ollama_wsock_connector::config::{Config, ConfigOverrides};
use ollama_wsock_connector::handler::{dispatch, Handler, HandlerAction, HandlerEvent};
use ollama_wsock_connector::ollama::{ChatChunk, OllamaError};
use ollama_wsock_connector::protocol::{ChatMessage, Inbound, ModelInfo, Outbound, Stats};
use ollama_wsock_connector::session::{
    authorization, upgrade, writer_step, Frame, Ignored, Session, SessionError, SessionStep,
    SessionWait, WriterEvent, WriterStep, OUTBOUND_CAP, PKG_VERSION,
};

fn config(auth: Option<&str>) -> Config {
    let overrides = ConfigOverrides {
        ws_url: Some("ws://s".into()),
        client_id: Some("user-12345".into()),
        ws_auth_header: auth.map(|a| a.to_string()),
        ..ConfigOverrides::default()
    };
    Config::load(None, overrides).config.unwrap()
}

fn generate(request_id: &str) -> Inbound {
    Inbound::Generate {
        request_id: request_id.into(),
        model: "llama3:8b".into(),
        messages: vec![ChatMessage { role: "user".into(), content: "Hi".into() }],
        options: Some(serde_json::Value::Bool(true)),
    }
}

fn piece(content: &str) -> HandlerEvent {
    HandlerEvent::Chunk(ChatChunk { content: content.into(), ..ChatChunk::default() })
}

fn last_piece(content: &str, duration: u64, count: u64) -> HandlerEvent {
    HandlerEvent::Chunk(ChatChunk {
        content: content.into(),
        done: true,
        total_duration_ns: Some(duration),
        eval_count: Some(count),
    })
}

fn token(request_id: &str, content: &str) -> Outbound {
    Outbound::Token { request_id: request_id.into(), content: content.into() }
}

fn run(handler: &mut Handler, events: Vec<HandlerEvent>) -> Vec<Outbound> {
    let mut sent = vec![];
    for event in events {
        assert!(handler.accepts(&event));
        if let HandlerAction::Send(message) = handler.step(event) {
            sent.push(message);
        }
    }
    sent
}

#[test]
fn a_generate_request_is_handed_to_ollama_as_it_came() {
    let (_, action) = dispatch(generate("abc"));
    match action {
        HandlerAction::OpenChat { model, messages, options } => {
            assert_eq!(model, "llama3:8b");
            assert_eq!(messages, vec![ChatMessage { role: "user".into(), content: "Hi".into() }]);
            assert_eq!(options, Some(serde_json::Value::Bool(true)));
        }
        _ => panic!("wrong action"),
    }
    let (_, action) = dispatch(Inbound::ListModels { request_id: "xyz".into() });
    assert!(matches!(action, HandlerAction::ListModels));
}

#[test]
fn a_reply_is_streamed_and_closed() {
    let (mut handler, _) = dispatch(generate("abc"));
    let sent = run(
        &mut handler,
        vec![
            HandlerEvent::ChatOpened,
            piece("Hel"),
            HandlerEvent::Sent,
            piece(""),
            piece("lo"),
            HandlerEvent::Sent,
            last_piece("", 123, 42),
            HandlerEvent::ChatEnded,
            HandlerEvent::Sent,
        ],
    );
    assert_eq!(
        sent,
        vec![
            token("abc", "Hel"),
            token("abc", "lo"),
            Outbound::Done {
                request_id: "abc".into(),
                stats: Some(Stats { total_duration_ns: Some(123), eval_count: Some(42) }),
            },
        ]
    );
    assert!(!handler.accepts(&HandlerEvent::Sent));
}

#[test]
fn a_reply_without_a_final_piece_has_no_stats() {
    let (mut handler, _) = dispatch(generate("abc"));
    let sent = run(&mut handler, vec![HandlerEvent::ChatOpened, HandlerEvent::ChatEnded]);
    assert_eq!(sent, vec![Outbound::Done { request_id: "abc".into(), stats: None }]);
}

#[test]
fn the_last_final_piece_gives_the_stats() {
    let (mut handler, _) = dispatch(generate("abc"));
    let sent = run(
        &mut handler,
        vec![
            HandlerEvent::ChatOpened,
            last_piece("x", 1, 1),
            HandlerEvent::Sent,
            piece("y"),
            HandlerEvent::Sent,
            last_piece("", 2, 3),
            HandlerEvent::ChatEnded,
        ],
    );
    assert_eq!(sent.len(), 3);
    assert_eq!(
        sent[2],
        Outbound::Done {
            request_id: "abc".into(),
            stats: Some(Stats { total_duration_ns: Some(2), eval_count: Some(3) }),
        }
    );
}

#[test]
fn a_broken_reply_ends_in_an_error() {
    let (mut handler, _) = dispatch(generate("abc"));
    let sent = run(
        &mut handler,
        vec![
            HandlerEvent::ChatOpened,
            piece("Hel"),
            HandlerEvent::Sent,
            HandlerEvent::Failed(OllamaError::Reported { message: "out of memory".into() }),
            HandlerEvent::Sent,
        ],
    );
    assert_eq!(
        sent,
        vec![
            token("abc", "Hel"),
            Outbound::Error {
                request_id: "abc".into(),
                message: "ollama error: out of memory".into(),
            },
        ]
    );
}

#[test]
fn a_refused_request_is_answered_with_one_error() {
    for inbound in [generate("abc"), Inbound::ListModels { request_id: "abc".into() }] {
        let (mut handler, _) = dispatch(inbound);
        let sent = run(
            &mut handler,
            vec![
                HandlerEvent::Failed(OllamaError::Reported { message: "no".into() }),
                HandlerEvent::SendFailed,
            ],
        );
        assert_eq!(
            sent,
            vec![Outbound::Error { request_id: "abc".into(), message: "ollama error: no".into() }]
        );
        assert!(!handler.accepts(&HandlerEvent::ChatEnded));
    }
}

#[test]
fn models_are_answered() {
    let models = vec![ModelInfo { name: "llama3:8b".into(), size: Some(1), modified_at: None }];
    let (mut handler, _) = dispatch(Inbound::ListModels { request_id: "xyz".into() });
    assert!(!handler.accepts(&HandlerEvent::ChatOpened));
    let sent = run(&mut handler, vec![HandlerEvent::Models(models.clone()), HandlerEvent::Sent]);
    assert_eq!(sent, vec![Outbound::Models { request_id: "xyz".into(), models }]);
}

#[test]
fn a_lost_connection_stops_a_reply() {
    let (mut handler, _) = dispatch(generate("abc"));
    let sent = run(&mut handler, vec![HandlerEvent::ChatOpened, piece("x"), HandlerEvent::SendFailed]);
    assert_eq!(sent, vec![token("abc", "x")]);
    assert!(!handler.accepts(&HandlerEvent::ChatEnded));
    assert!(!handler.accepts(&HandlerEvent::Sent));
}

#[test]
fn interleaved_replies_are_told_apart_by_their_ids() {
    let (mut a, _) = dispatch(generate("a"));
    let (mut b, _) = dispatch(generate("b"));
    let mut log = vec![];
    log.extend(run(&mut a, vec![HandlerEvent::ChatOpened, piece("1")]));
    log.extend(run(&mut b, vec![HandlerEvent::ChatOpened, piece("2")]));
    log.extend(run(&mut a, vec![HandlerEvent::Sent, HandlerEvent::ChatEnded]));
    log.extend(run(&mut b, vec![HandlerEvent::Sent, piece("3")]));
    let of_b: Vec<&Outbound> = log
        .iter()
        .filter(|m| matches!(m, Outbound::Token { request_id, .. } if request_id == "b"))
        .collect();
    assert_eq!(of_b, vec![&token("b", "2"), &token("b", "3")]);
    assert_eq!(log[2], Outbound::Done { request_id: "a".into(), stats: None });
}

#[test]
fn a_session_starts_with_the_greeting() {
    let (session, hello) = Session::start(&config(None));
    assert_eq!(
        hello,
        Outbound::Hello { client_id: "user-12345".into(), version: "0.1.0".into() }
    );
    assert_eq!(PKG_VERSION, "0.1.0");
    assert_eq!(OUTBOUND_CAP, 256);
    assert_eq!(session.wait(0), SessionWait::Frame);
    assert_eq!(session.wait(2), SessionWait::HandlersThenFrame);
}

#[test]
fn frames_that_mean_nothing_are_let_pass() {
    let (mut session, _) = Session::start(&config(None));
    let step = session.on_frame(Frame::Text(Err("bad".into())));
    assert!(matches!(step, SessionStep::Ignore(Ignored::Unreadable)));
    assert!(matches!(session.on_frame(Frame::Binary), SessionStep::Ignore(Ignored::Binary)));
    assert!(matches!(session.on_frame(Frame::Control), SessionStep::Ignore(Ignored::Control)));
    let step = session.on_frame(Frame::Text(Ok(generate("abc"))));
    assert!(matches!(step, SessionStep::Start(_, HandlerAction::OpenChat { .. })));
    assert_eq!(session.wait(1), SessionWait::HandlersThenFrame);
}

#[test]
fn a_close_lets_the_handlers_finish() {
    for frame in [Frame::Close, Frame::End] {
        let (mut session, _) = Session::start(&config(None));
        assert!(matches!(session.on_frame(frame), SessionStep::End));
        assert_eq!(session.wait(1), SessionWait::Handlers);
        assert_eq!(session.wait(0), SessionWait::Close);
        assert_eq!(session.finish(), Ok(()));
    }
}

#[test]
fn a_broken_connection_is_an_error() {
    let (mut session, _) = Session::start(&config(None));
    assert!(matches!(session.on_frame(Frame::Broken { cause: "reset".into() }), SessionStep::End));
    let err = session.finish().unwrap_err();
    assert_eq!(err.message(), "websocket read: reset");
}

#[test]
fn the_auth_header_is_checked() {
    assert_eq!(authorization(&config(None)), Ok(None));
    assert_eq!(authorization(&config(Some("Bearer cli"))), Ok(Some("Bearer cli".into())));
    assert_eq!(authorization(&config(Some("a\tä"))), Ok(Some("a\tä".into())));
    for bad in ["a\nb", "\u{7f}", "\u{0}"] {
        let error = authorization(&config(Some(bad))).unwrap_err();
        assert_eq!(
            error.message(),
            "invalid Authorization header value: failed to parse header value"
        );
    }
}

#[test]
fn the_writer_writes_until_the_queue_is_drained() {
    let text = "{\"type\":\"hello\"}".to_string();
    assert!(matches!(
        writer_step(WriterEvent::Message(Ok(text.clone()))),
        WriterStep::Write(written) if written == text
    ));
    assert!(matches!(writer_step(WriterEvent::Message(Err("e".into()))), WriterStep::Skip));
    assert!(matches!(writer_step(WriterEvent::Drained), WriterStep::Close));
    assert!(matches!(
        writer_step(WriterEvent::WriteFailed { cause: "gone".into() }),
        WriterStep::Stop { cause } if cause == "gone"
    ));
}

#[test]
fn the_connection_is_asked_for_at_the_configured_url() {
    let request = upgrade(&config(Some("Bearer cli"))).unwrap();
    assert_eq!(request.url, config(None).ws_url);
    assert_eq!(request.authorization.as_deref(), Some("Bearer cli"));
    assert_eq!(upgrade(&config(None)).unwrap().authorization, None);
    assert!(matches!(upgrade(&config(Some("a\nb"))), Err(SessionError::AuthHeader { .. })));

    let mut hostless = config(Some("a\nb"));
    hostless.ws_url = "file:///nothing".into();
    let error = upgrade(&hostless).unwrap_err();
    assert!(matches!(error, SessionError::Request { .. }));
    assert!(error.message().starts_with("building ws upgrade request: "));
    assert_eq!(
        SessionError::Connect { cause: "refused".into() }.message(),
        "websocket connect: refused"
    );
    assert_eq!(
        SessionError::Hello { cause: "closed".into() }.message(),
        "sending hello message: closed"
    );
}
