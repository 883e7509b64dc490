use geserdesk::config::{
    listen_text, LinkEntry, OptionsSection, RawConfig, ScreenEntry, ServerSection,
};
use geserdesk::layout::Decision;
use geserdesk::server::{
    keepalive_interval, server_handshake_reply, ReceiveAction, ServerSession, TickAction,
};
use geserdesk::{
    protocol_version, ClientMsg, CloseReason, CodecError, Config, ConfigError, Duration, Edge,
    HandshakeError, HandshakeOutcome, Layout, Options, Point, Rect, ScreenInfo, ServerMsg,
    SwitchPolicy, SwitchState, Version, KEEPALIVE_MISSES,
};

// ---- layout -----------------------------------------------------------------

fn layout() -> Layout {
    let mut l = Layout::new(vec!["a".into(), "b".into(), "c".into()]);
    l.link("a", Edge::Right, "b").unwrap();
    l.link("b", Edge::Left, "a").unwrap();
    l.link("b", Edge::Right, "c").unwrap();
    l
}

#[test]
fn neighbor_lookup() {
    let l = layout();
    assert_eq!(l.neighbor("a", Edge::Right), Some("b"));
    assert_eq!(l.neighbor("b", Edge::Right), Some("c"));
    assert_eq!(l.neighbor("a", Edge::Left), None);
    assert_eq!(l.neighbor("nope", Edge::Left), None);
}

#[test]
fn active_edges_reports_linked_sides() {
    let l = layout();
    let e = l.active_edges("b");
    assert!(e.contains(Edge::Left));
    assert!(e.contains(Edge::Right));
    assert!(!e.contains(Edge::Top));
    assert!(l.active_edges("c").is_empty());
}

#[test]
fn link_to_unknown_screen_errs() {
    let mut l = Layout::new(vec!["a".into()]);
    let err = l.link("a", Edge::Right, "ghost").unwrap_err();
    assert_eq!(err.undefined, "ghost");
}

#[test]
fn relinking_replaces_the_neighbor() {
    let mut l = layout();
    l.link("a", Edge::Right, "c").unwrap();
    assert_eq!(l.neighbor("a", Edge::Right), Some("c"));
    assert_eq!(l.neighbor("b", Edge::Right), Some("c"));
    assert_eq!(l.neighbor("b", Edge::Left), Some("a"));
    let e = l.active_edges("a");
    assert!(e.contains(Edge::Right) && !e.contains(Edge::Left));
}

#[test]
fn unknown_source_is_reported_first_and_changes_nothing() {
    let mut l = layout();
    let err = l.link("x", Edge::Top, "y").unwrap_err();
    assert_eq!(err.from, "x");
    assert_eq!(err.to, "y");
    assert_eq!(err.undefined, "x");
    assert_eq!(l.neighbor("x", Edge::Top), None);
    assert_eq!(l.screens().len(), 3);
    assert!(l.has_screen("c"));
    assert!(!l.has_screen("d"));
    let copy = l.clone();
    assert_eq!(copy.neighbor("a", Edge::Right), Some("b"));
    assert_eq!(copy.screens(), l.screens());
}

#[test]
fn immediate_switch_when_no_gates() {
    let p = SwitchPolicy::default();
    let mut s = SwitchState::new();
    assert_eq!(s.evaluate(&p, 0, Edge::Right, true, true), Decision::Switch);
}

#[test]
fn blocked_without_neighbor_or_corner() {
    let p = SwitchPolicy::default();
    let mut s = SwitchState::new();
    assert_eq!(
        s.evaluate(&p, 0, Edge::Right, false, true),
        Decision::Blocked
    );
    assert_eq!(
        s.evaluate(&p, 0, Edge::Right, true, false),
        Decision::Blocked
    );
}

#[test]
fn scroll_lock_blocks_switch() {
    let p = SwitchPolicy::default();
    let mut s = SwitchState::new();
    s.toggle_lock();
    assert!(s.is_locked());
    assert_eq!(
        s.evaluate(&p, 0, Edge::Right, true, true),
        Decision::Blocked
    );
    s.toggle_lock();
    assert_eq!(s.evaluate(&p, 0, Edge::Right, true, true), Decision::Switch);
}

#[test]
fn dwell_delay_requires_time_at_edge() {
    let p = SwitchPolicy {
        delay_ms: 200,
        ..SwitchPolicy::default()
    };
    let mut s = SwitchState::new();
    assert_eq!(
        s.evaluate(&p, 1000, Edge::Right, true, true),
        Decision::Wait
    );
    assert_eq!(
        s.evaluate(&p, 1100, Edge::Right, true, true),
        Decision::Wait
    );
    assert_eq!(
        s.evaluate(&p, 1200, Edge::Right, true, true),
        Decision::Switch
    );
}

#[test]
fn dwell_resets_when_switching_edges() {
    let p = SwitchPolicy {
        delay_ms: 200,
        ..SwitchPolicy::default()
    };
    let mut s = SwitchState::new();
    s.evaluate(&p, 1000, Edge::Right, true, true);
    // Different edge -> dwell restarts.
    assert_eq!(s.evaluate(&p, 1300, Edge::Left, true, true), Decision::Wait);
}

#[test]
fn double_tap_requires_two_touches_in_window() {
    let p = SwitchPolicy {
        double_tap_ms: 250,
        ..SwitchPolicy::default()
    };
    let mut s = SwitchState::new();
    // First touch: wait.
    assert_eq!(
        s.evaluate(&p, 1000, Edge::Right, true, true),
        Decision::Wait
    );
    // Second touch within window: switch.
    assert_eq!(
        s.evaluate(&p, 1200, Edge::Right, true, true),
        Decision::Switch
    );
}

#[test]
fn double_tap_too_slow_does_not_switch() {
    let p = SwitchPolicy {
        double_tap_ms: 250,
        ..SwitchPolicy::default()
    };
    let mut s = SwitchState::new();
    assert_eq!(
        s.evaluate(&p, 1000, Edge::Right, true, true),
        Decision::Wait
    );
    assert_eq!(
        s.evaluate(&p, 2000, Edge::Right, true, true),
        Decision::Wait
    );
    // ...but the 2s touch is now itself a first tap; a quick follow-up works.
    assert_eq!(
        s.evaluate(&p, 2100, Edge::Right, true, true),
        Decision::Switch
    );
}

#[test]
fn left_edge_clears_pending_dwell() {
    let p = SwitchPolicy {
        delay_ms: 200,
        ..SwitchPolicy::default()
    };
    let mut s = SwitchState::new();
    s.evaluate(&p, 1000, Edge::Right, true, true);
    s.left_edge();
    // Dwell restarts rather than firing immediately at t=1200.
    assert_eq!(
        s.evaluate(&p, 1200, Edge::Right, true, true),
        Decision::Wait
    );
}

#[test]
fn scroll_lock_is_ignored_when_policy_allows() {
    let p = SwitchPolicy {
        scroll_lock_locks: false,
        ..SwitchPolicy::default()
    };
    let mut s = SwitchState::new();
    s.set_locked(true);
    assert!(s.is_locked());
    assert_eq!(s.evaluate(&p, 5, Edge::Top, true, true), Decision::Switch);
    // Evaluating never touches the lock.
    assert!(s.is_locked());
    s.set_locked(false);
    assert!(!s.is_locked());
}

#[test]
fn double_tap_then_dwell_both_gate() {
    let p = SwitchPolicy {
        double_tap_ms: 100,
        delay_ms: 50,
        ..SwitchPolicy::default()
    };
    let mut s = SwitchState::new();
    assert_eq!(s.evaluate(&p, 0, Edge::Left, true, true), Decision::Wait);
    // Second tap passes the tap gate and starts a dwell.
    assert_eq!(s.evaluate(&p, 10, Edge::Left, true, true), Decision::Wait);
    // Third tap, dwell of 60ms: switch.
    assert_eq!(s.evaluate(&p, 70, Edge::Left, true, true), Decision::Switch);
    // State was reset: a lone tap now waits again.
    assert_eq!(s.evaluate(&p, 80, Edge::Left, true, true), Decision::Wait);
    s.switched();
    assert_eq!(s.evaluate(&p, 90, Edge::Left, true, true), Decision::Wait);
}

#[test]
fn dwell_survives_time_going_backwards() {
    let p = SwitchPolicy {
        delay_ms: 200,
        ..SwitchPolicy::default()
    };
    let mut s = SwitchState::new();
    assert_eq!(s.evaluate(&p, 1000, Edge::Right, true, true), Decision::Wait);
    assert_eq!(s.evaluate(&p, 500, Edge::Right, true, true), Decision::Wait);
    assert_eq!(s.evaluate(&p, 1200, Edge::Right, true, true), Decision::Switch);
}

// ---- config -----------------------------------------------------------------

fn screens(names: &[&str]) -> Vec<ScreenEntry> {
    names.iter().map(|n| ScreenEntry { name: n.to_string() }).collect()
}

fn sample() -> RawConfig {
    RawConfig {
        server: Some(ServerSection {
            listen: Some("127.0.0.1:24810".into()),
        }),
        screens: screens(&["linux-pc", "windows-pc"]),
        links: vec![
            (
                "linux-pc".into(),
                LinkEntry {
                    right: Some("windows-pc".into()),
                    ..LinkEntry::default()
                },
            ),
            (
                "windows-pc".into(),
                LinkEntry {
                    left: Some("linux-pc".into()),
                    ..LinkEntry::default()
                },
            ),
        ],
        options: Some(OptionsSection {
            switch_double_tap_ms: Some(250),
            relative_mouse_moves: Some(false),
            ..OptionsSection::default()
        }),
    }
}

#[test]
fn parses_sample() {
    let cfg = Config::from_raw(sample()).unwrap();
    assert!(cfg.listen.ends_with(":24810"));
    assert_eq!(cfg.policy.double_tap_ms, 250);
    assert!(!cfg.options.relative_mouse_moves);
    assert_eq!(
        cfg.layout.neighbor("linux-pc", Edge::Right),
        Some("windows-pc")
    );
    assert_eq!(
        cfg.layout.neighbor("windows-pc", Edge::Left),
        Some("linux-pc")
    );
}

#[test]
fn defaults_apply_when_sections_missing() {
    let raw = RawConfig {
        server: None,
        screens: screens(&["only"]),
        links: vec![],
        options: None,
    };
    assert_eq!(listen_text(&raw), "0.0.0.0:24810");
    let cfg = Config::from_raw(raw).unwrap();
    assert!(cfg.listen.ends_with(":24810"));
    assert!(cfg.policy.scroll_lock_locks);
    assert!(cfg.options.relative_mouse_moves);
}

#[test]
fn rejects_empty_screens() {
    let raw = RawConfig {
        server: Some(ServerSection {
            listen: Some("0.0.0.0:1".into()),
        }),
        screens: vec![],
        links: vec![],
        options: None,
    };
    assert!(matches!(Config::from_raw(raw), Err(ConfigError::NoScreens)));
}

#[test]
fn rejects_duplicate_screen() {
    let raw = RawConfig {
        server: None,
        screens: screens(&["a", "a"]),
        links: vec![],
        options: None,
    };
    let e = Config::from_raw(raw).unwrap_err();
    assert!(matches!(e, ConfigError::DuplicateScreen(n) if n == "a"));
}

#[test]
fn rejects_link_to_unknown_screen() {
    let raw = RawConfig {
        server: None,
        screens: screens(&["a"]),
        links: vec![(
            "a".into(),
            LinkEntry {
                right: Some("ghost".into()),
                ..LinkEntry::default()
            },
        )],
        options: None,
    };
    let e = Config::from_raw(raw).unwrap_err();
    assert!(matches!(e, ConfigError::UnknownScreen(_)));
}

#[test]
fn config_defaults_and_option_values_in_full() {
    let raw = RawConfig {
        server: Some(ServerSection { listen: None }),
        screens: screens(&["a", "b", "c"]),
        links: vec![(
            "b".into(),
            LinkEntry {
                left: Some("a".into()),
                right: Some("c".into()),
                up: Some("a".into()),
                down: Some("c".into()),
            },
        )],
        options: Some(OptionsSection {
            switch_delay_ms: Some(120),
            switch_corner_size: Some(8),
            jump_zone_size: Some(3),
            scroll_lock_locks: Some(false),
            clipboard_sharing: Some(false),
            clipboard_max_bytes: Some(4096),
            screensaver_sync: Some(true),
            ..OptionsSection::default()
        }),
    };
    let cfg = Config::from_raw(raw).unwrap();
    assert_eq!(cfg.listen, "0.0.0.0:24810");
    assert_eq!(
        cfg.policy,
        SwitchPolicy {
            delay_ms: 120,
            double_tap_ms: 0,
            corner_size: 8,
            jump_zone: 3,
            scroll_lock_locks: false,
        }
    );
    assert_eq!(
        cfg.options,
        Options {
            clipboard_sharing: false,
            clipboard_max_bytes: 4096,
            scroll_lock_locks: false,
            screensaver_sync: true,
            relative_mouse_moves: true,
        }
    );
    assert_eq!(cfg.layout.neighbor("b", Edge::Top), Some("a"));
    assert_eq!(cfg.layout.neighbor("b", Edge::Bottom), Some("c"));
    assert_eq!(cfg.layout.screens().len(), 3);
}

#[test]
fn first_bad_link_is_reported() {
    let raw = RawConfig {
        server: None,
        screens: screens(&["a", "b"]),
        links: vec![
            (
                "a".into(),
                LinkEntry {
                    left: Some("b".into()),
                    right: Some("x".into()),
                    down: Some("y".into()),
                    ..LinkEntry::default()
                },
            ),
            (
                "z".into(),
                LinkEntry {
                    left: Some("a".into()),
                    ..LinkEntry::default()
                },
            ),
        ],
        options: None,
    };
    match Config::from_raw(raw) {
        Err(ConfigError::UnknownScreen(e)) => {
            assert_eq!(e.from, "a");
            assert_eq!(e.to, "x");
            assert_eq!(e.undefined, "x");
        }
        other => panic!("expected UnknownScreen, got {other:?}"),
    }
}

#[test]
fn link_entry_edges_in_order() {
    let e = LinkEntry {
        left: None,
        right: Some("r".into()),
        up: Some("u".into()),
        down: Some("d".into()),
    };
    assert_eq!(
        e.edges(),
        vec![(Edge::Right, "r"), (Edge::Top, "u"), (Edge::Bottom, "d")]
    );
    assert!(LinkEntry::default().edges().is_empty());
}

// ---- handshake --------------------------------------------------------------

fn handshake_layout() -> Layout {
    Layout::new(vec!["linux-pc".into(), "windows-pc".into()])
}

fn client_screen(name: &str) -> ScreenInfo {
    ScreenInfo {
        name: name.into(),
        bounds: Rect::new(0, 0, 1920, 1080),
        cursor: Point::new(0, 0),
    }
}

#[test]
fn accepts_known_screen_and_sends_welcome_then_options() {
    let reply = server_handshake_reply(
        ClientMsg::Hello {
            version: protocol_version(),
            screen: client_screen("linux-pc"),
        },
        &handshake_layout(),
        &Options::default(),
        keepalive_interval(),
        |_: &str| false,
    );
    assert!(!reply.best_effort);
    assert_eq!(
        reply.replies,
        vec![
            ServerMsg::Welcome {
                version: Version::new(1, 0),
                keepalive: Duration::from_secs(3),
            },
            ServerMsg::SetOptions(Options::default()),
        ]
    );
    assert_eq!(
        reply.outcome.unwrap(),
        HandshakeOutcome::Accepted {
            screen: client_screen("linux-pc"),
            version: Version::new(1, 0),
        }
    );
}

#[test]
fn rejects_unknown_screen() {
    let reply = server_handshake_reply(
        ClientMsg::Hello {
            version: protocol_version(),
            screen: client_screen("ghost"),
        },
        &handshake_layout(),
        &Options::default(),
        keepalive_interval(),
        |_: &str| false,
    );
    assert_eq!(
        reply.replies,
        vec![ServerMsg::Rejected {
            reason: "no screen named \"ghost\" in the server config".into()
        }]
    );
    assert_eq!(
        reply.outcome.unwrap(),
        HandshakeOutcome::UnknownScreen("ghost".into())
    );
}

#[test]
fn rejects_incompatible_major() {
    let reply = server_handshake_reply(
        ClientMsg::Hello {
            version: Version::new(99, 0),
            screen: client_screen("linux-pc"),
        },
        &handshake_layout(),
        &Options::default(),
        keepalive_interval(),
        |_: &str| false,
    );
    assert_eq!(
        reply.replies,
        vec![ServerMsg::Incompatible {
            server_version: Version::new(1, 0)
        }]
    );
    assert_eq!(
        reply.outcome.unwrap(),
        HandshakeOutcome::Incompatible {
            remote: Version::new(99, 0)
        }
    );
}

#[test]
fn rejects_name_already_connected() {
    let reply = server_handshake_reply(
        ClientMsg::Hello {
            version: protocol_version(),
            screen: client_screen("linux-pc"),
        },
        &handshake_layout(),
        &Options::default(),
        keepalive_interval(),
        |name: &str| name == "linux-pc",
    );
    assert_eq!(
        reply.replies,
        vec![ServerMsg::Rejected {
            reason: "screen \"linux-pc\" is already connected".into()
        }]
    );
    assert_eq!(
        reply.outcome.unwrap(),
        HandshakeOutcome::NameTaken("linux-pc".into())
    );
}

#[test]
fn first_message_must_be_hello() {
    let reply = server_handshake_reply(
        ClientMsg::KeepAlive,
        &handshake_layout(),
        &Options::default(),
        keepalive_interval(),
        |_: &str| false,
    );
    assert!(reply.best_effort);
    assert_eq!(
        reply.replies,
        vec![ServerMsg::Close(CloseReason::ProtocolError)]
    );
    assert!(matches!(reply.outcome, Err(HandshakeError::ExpectedHello)));
}

#[test]
fn accepted_version_takes_the_lower_minor() {
    let reply = server_handshake_reply(
        ClientMsg::Hello {
            version: Version::new(1, 5),
            screen: client_screen("windows-pc"),
        },
        &handshake_layout(),
        &Options::default(),
        Duration::from_millis(2500),
        |_: &str| false,
    );
    assert_eq!(
        reply.replies[0],
        ServerMsg::Welcome {
            version: Version::new(1, 0),
            keepalive: Duration::from_millis(2500),
        }
    );
}

// ---- session ----------------------------------------------------------------

#[test]
fn session_times_out_an_interval_after_the_third_unanswered_probe() {
    assert_eq!(KEEPALIVE_MISSES, 3);
    let mut s = ServerSession::new();
    assert_eq!(s.on_tick(), TickAction::Probe);
    assert_eq!(s.on_tick(), TickAction::Probe);
    assert_eq!(s.on_tick(), TickAction::Probe);
    assert_eq!(s.on_tick(), TickAction::Timeout);
    assert_eq!(s.on_tick(), TickAction::Timeout);
}

#[test]
fn a_reply_to_the_third_probe_is_in_time() {
    let mut s = ServerSession::new();
    s.on_tick();
    s.on_tick();
    s.on_tick();
    assert!(matches!(s.on_receive(Ok(ClientMsg::KeepAlive)), ReceiveAction::Continue));
    assert_eq!(s.on_tick(), TickAction::Probe);
}

#[test]
fn any_client_message_resets_the_count() {
    let mut s = ServerSession::new();
    s.on_tick();
    s.on_tick();
    assert!(matches!(s.on_receive(Ok(ClientMsg::KeepAlive)), ReceiveAction::Continue));
    assert_eq!(s.on_tick(), TickAction::Probe);
    assert_eq!(s.on_tick(), TickAction::Probe);
    assert!(matches!(
        s.on_receive(Ok(ClientMsg::FileOffer { name: "x".into(), size: 1 })),
        ReceiveAction::Continue
    ));
    assert_eq!(s.on_tick(), TickAction::Probe);
}

#[test]
fn session_ends_on_close_or_failure() {
    let mut s = ServerSession::new();
    assert!(matches!(s.on_receive(Err(CodecError::Closed)), ReceiveAction::Closed));
    assert!(matches!(
        s.on_receive(Err(CodecError::FrameTooLarge { size: 9, max: 1 })),
        ReceiveAction::Failed(CodecError::FrameTooLarge { size: 9, max: 1 })
    ));
    assert_eq!(keepalive_interval(), Duration::from_secs(3));
}
