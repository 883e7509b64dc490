use geserdesk::client::{
    check_first_reply, check_second_reply, client_hello, on_receive, route, silence_timeout,
    ReceiveStep, SessionAction,
};
use geserdesk::CodecError;
use geserdesk::inject::{decode_button, encode_button, HeldInputs, InjectStep};
use geserdesk::{
    protocol_version, Button, ClientConfig, ClientMsg, CloseReason, ConnectError, Connected,
    Duration, InputSink, KeyAction, KeyEvent, ModMask, MouseEvent, NullSink, Options, Point, Rect,
    RecordingSink, ScreenInfo, ServerMsg, Version,
};

fn screen(name: &str) -> ScreenInfo {
    ScreenInfo {
        name: name.into(),
        bounds: Rect::new(0, 0, 1920, 1080),
        cursor: Point::new(0, 0),
    }
}

fn key_a(action: KeyAction) -> KeyEvent {
    KeyEvent {
        hid: 4,
        ch: Some('a'),
        mods: ModMask::empty(),
        action,
    }
}

// ---- sinks ------------------------------------------------------------------

#[test]
fn recording_sink_captures_events() {
    let mut s = RecordingSink::default();
    s.enter(Point::new(1, 2));
    s.mouse(MouseEvent::Wheel { dx: 0, dy: 120 });
    s.key(&KeyEvent {
        hid: 4,
        ch: Some('a'),
        mods: ModMask::empty(),
        action: KeyAction::Down,
    });
    s.leave();
    assert_eq!(s.enters, vec![Point::new(1, 2)]);
    assert_eq!(s.mice.len(), 1);
    assert_eq!(s.keys.len(), 1);
    assert_eq!(s.leaves, 1);
}

#[test]
fn null_sink_is_a_sink() {
    fn takes_sink(_: impl InputSink) {}
    takes_sink(NullSink);
}

// ---- handshake --------------------------------------------------------------

#[test]
fn hello_carries_version_and_screen() {
    let s = screen("linux-pc");
    assert_eq!(
        client_hello(&s),
        ClientMsg::Hello {
            version: protocol_version(),
            screen: s.clone(),
        }
    );
}

#[test]
fn handshake_happy_path() {
    let connected = check_first_reply(ServerMsg::Welcome {
        version: protocol_version(),
        keepalive: Duration::from_secs(3),
    })
    .unwrap();
    assert_eq!(connected.version, protocol_version());
    assert_eq!(connected.keepalive, Duration::from_secs(3));
    assert!(check_second_reply(ServerMsg::SetOptions(Options::default())).is_ok());
}

#[test]
fn handshake_surfaces_rejection() {
    let err = check_first_reply(ServerMsg::Rejected {
        reason: "unknown screen".into(),
    })
    .unwrap_err();
    assert!(matches!(err, ConnectError::Rejected(r) if r == "unknown screen"));
}

#[test]
fn handshake_surfaces_incompatibility_and_surprises() {
    assert!(matches!(
        check_first_reply(ServerMsg::Incompatible {
            server_version: Version::new(2, 0)
        }),
        Err(ConnectError::Incompatible(v)) if v == Version::new(2, 0)
    ));
    assert!(matches!(
        check_first_reply(ServerMsg::KeepAlive),
        Err(ConnectError::Unexpected("first reply"))
    ));
    assert!(matches!(
        check_second_reply(ServerMsg::Leave),
        Err(ConnectError::Unexpected("expected SetOptions"))
    ));
    let c = Connected {
        version: Version::new(1, 0),
        keepalive: Duration::from_millis(10),
    };
    assert_eq!(c, c.clone());
}

#[test]
fn screen_info_centres_the_cursor() {
    let cfg = ClientConfig {
        server: "127.0.0.1:24810".into(),
        name: "windows-pc".into(),
        bounds: Rect::new(0, 0, 2560, 1440),
    };
    let s = cfg.screen_info();
    assert_eq!(s.name, "windows-pc");
    assert_eq!(s.bounds, Rect::new(0, 0, 2560, 1440));
    assert_eq!(s.cursor, Point::new(1280, 720));
}

// ---- session ----------------------------------------------------------------

#[test]
fn silence_timeout_is_three_intervals_at_least_five_seconds() {
    assert_eq!(silence_timeout(Duration::from_secs(3)), Duration::from_secs(9));
    assert_eq!(silence_timeout(Duration::from_secs(1)), Duration::from_secs(5));
    assert_eq!(silence_timeout(Duration::from_millis(2500)), Duration::from_millis(7500));
    assert_eq!(
        silence_timeout(Duration::from_secs(u64::MAX)),
        Duration::new(u64::MAX, 999_999_999)
    );
}

#[test]
fn session_loop_replies_to_keepalive_and_routes_input() {
    let mut sink = RecordingSink::default();
    let msgs = vec![
        ServerMsg::KeepAlive,
        ServerMsg::Enter {
            x: 5,
            y: 6,
            seq: 1,
            toggle_mods: ModMask::empty(),
        },
        ServerMsg::Mouse(MouseEvent::MoveRel { dx: 3, dy: -2 }),
        ServerMsg::Key(key_a(KeyAction::Down)),
        ServerMsg::SetOptions(Options::default()),
        ServerMsg::Leave,
        ServerMsg::Close(CloseReason::ServerShutdown),
    ];
    let mut replies = Vec::new();
    let mut stopped = None;
    for msg in msgs {
        match route(msg) {
            SessionAction::Reply(m) => replies.push(m),
            SessionAction::Enter(at) => sink.enter(at),
            SessionAction::Leave => sink.leave(),
            SessionAction::Key(ev) => sink.key(&ev),
            SessionAction::Mouse(ev) => sink.mouse(ev),
            SessionAction::Stop(r) => {
                stopped = Some(r);
                break;
            }
            SessionAction::Ignore => {}
        }
    }
    assert_eq!(replies, vec![ClientMsg::KeepAlive]);
    assert_eq!(stopped, Some(CloseReason::ServerShutdown));
    assert_eq!(sink.enters, vec![Point::new(5, 6)]);
    assert_eq!(sink.mice, vec![MouseEvent::MoveRel { dx: 3, dy: -2 }]);
    assert_eq!(sink.keys.len(), 1);
    assert_eq!(sink.leaves, 1);
}

// ---- injection planning -----------------------------------------------------

#[test]
fn button_codes_roundtrip() {
    for b in [
        Button::Left,
        Button::Middle,
        Button::Right,
        Button::Back,
        Button::Forward,
        Button::Extra(0),
        Button::Extra(7),
        Button::Extra(245),
    ] {
        assert_eq!(decode_button(encode_button(b)), b);
    }
    assert_eq!(encode_button(Button::Extra(7)), 17);
    assert_eq!(encode_button(Button::Extra(250)), 255);
    assert_eq!(decode_button(encode_button(Button::Extra(250))), Button::Extra(245));
    assert_eq!(decode_button(6), Button::Extra(0));
}

#[test]
fn key_plans_follow_the_character() {
    let mut h = HeldInputs::new();
    assert_eq!(
        h.on_key(&key_a(KeyAction::Down)),
        Some(InjectStep::Key { ch: 'a', press: true })
    );
    assert_eq!(
        h.on_key(&key_a(KeyAction::Repeat(2))),
        Some(InjectStep::Key { ch: 'a', press: true })
    );
    assert_eq!(
        h.on_key(&key_a(KeyAction::Up)),
        Some(InjectStep::Key { ch: 'a', press: false })
    );
    let no_char = KeyEvent {
        hid: 0xE1,
        ch: None,
        mods: ModMask::shift(),
        action: KeyAction::Down,
    };
    assert_eq!(h.on_key(&no_char), None);
}

#[test]
fn mouse_plans_and_wheel_notches() {
    let mut h = HeldInputs::new();
    assert_eq!(
        h.on_mouse(MouseEvent::MoveAbs { x: 1, y: 2 }),
        vec![InjectStep::MoveAbs { x: 1, y: 2 }]
    );
    assert_eq!(
        h.on_mouse(MouseEvent::MoveRel { dx: -1, dy: 2 }),
        vec![InjectStep::MoveRel { dx: -1, dy: 2 }]
    );
    assert_eq!(
        h.on_mouse(MouseEvent::Wheel { dx: 0, dy: 120 }),
        vec![InjectStep::Scroll { notches: -1, horizontal: false }]
    );
    assert_eq!(
        h.on_mouse(MouseEvent::Wheel { dx: -250, dy: -240 }),
        vec![
            InjectStep::Scroll { notches: -2, horizontal: true },
            InjectStep::Scroll { notches: 2, horizontal: false },
        ]
    );
    assert_eq!(h.on_mouse(MouseEvent::Wheel { dx: 0, dy: 0 }), vec![]);
    assert_eq!(
        h.on_mouse(MouseEvent::Wheel { dx: 0, dy: i32::MIN }),
        vec![InjectStep::Scroll { notches: 17_895_697, horizontal: false }]
    );
}

#[test]
fn leave_releases_held_keys_and_buttons_once() {
    let mut h = HeldInputs::new();
    h.on_mouse(MouseEvent::Button { button: Button::Left, down: true });
    h.on_mouse(MouseEvent::Button { button: Button::Extra(3), down: true });
    h.on_mouse(MouseEvent::Button { button: Button::Left, down: true });
    h.on_mouse(MouseEvent::Button { button: Button::Right, down: true });
    assert_eq!(
        h.on_mouse(MouseEvent::Button { button: Button::Right, down: false }),
        vec![InjectStep::Button { button: Button::Right, press: false }]
    );
    h.on_key(&key_a(KeyAction::Down));
    h.on_key(&KeyEvent { hid: 5, ch: Some('b'), mods: ModMask::empty(), action: KeyAction::Down });
    h.on_key(&KeyEvent { hid: 0xE1, ch: None, mods: ModMask::empty(), action: KeyAction::Down });
    h.on_key(&KeyEvent { hid: 6, ch: Some('c'), mods: ModMask::empty(), action: KeyAction::Down });
    h.on_key(&KeyEvent { hid: 5, ch: Some('b'), mods: ModMask::empty(), action: KeyAction::Up });
    // Pressed again under another character: released by the newer one.
    h.on_key(&KeyEvent { hid: 4, ch: Some('A'), mods: ModMask::shift(), action: KeyAction::Down });
    let steps = h.on_leave();
    // Keys first, then buttons; within each, the order the sets are walked.
    assert_eq!(steps.len(), 4);
    let keys = &steps[..2];
    let buttons = &steps[2..];
    for expected in [
        InjectStep::Key { ch: 'c', press: false },
        InjectStep::Key { ch: 'A', press: false },
    ] {
        assert_eq!(keys.iter().filter(|s| **s == expected).count(), 1);
    }
    for expected in [
        InjectStep::Button { button: Button::Left, press: false },
        InjectStep::Button { button: Button::Extra(3), press: false },
    ] {
        assert_eq!(buttons.iter().filter(|s| **s == expected).count(), 1);
    }
    assert_eq!(h.on_leave(), vec![]);
}

#[test]
fn receive_results_end_or_continue_the_session() {
    assert!(matches!(on_receive(None), ReceiveStep::Silent));
    assert!(matches!(on_receive(Some(Err(CodecError::Closed))), ReceiveStep::Closed));
    assert!(matches!(
        on_receive(Some(Err(CodecError::FrameTooLarge { size: 10, max: 4 }))),
        ReceiveStep::Failed(CodecError::FrameTooLarge { size: 10, max: 4 })
    ));
    assert!(matches!(
        on_receive(Some(Ok(ServerMsg::KeepAlive))),
        ReceiveStep::Act(SessionAction::Reply(ClientMsg::KeepAlive))
    ));
    assert!(matches!(
        on_receive(Some(Ok(ServerMsg::Enter { x: 5, y: 6, seq: 1, toggle_mods: ModMask::empty() }))),
        ReceiveStep::Act(SessionAction::Enter(Point { x: 5, y: 6 }))
    ));
    assert!(matches!(
        on_receive(Some(Ok(ServerMsg::Close(CloseReason::Timeout)))),
        ReceiveStep::Act(SessionAction::Stop(CloseReason::Timeout))
    ));
}
