use geserdesk::clipboard::ChunkAssembler;
use geserdesk::codec::{CodecError, MessageStream, DEFAULT_MAX_FRAME};
use geserdesk::{
    protocol_version, Chunk, ChunkError, CloseReason, Duration, Edge, EdgeSet, KeyAction, KeyEvent,
    ModMask, Options, Point, Rect, Version, CHUNK_SIZE,
};

// ---- geometry ---------------------------------------------------------------

#[test]
fn rect_edges_and_center() {
    let r = Rect::new(10, 20, 100, 200);
    assert_eq!(r.right(), 110);
    assert_eq!(r.bottom(), 220);
    assert_eq!(r.center(), Point::new(60, 120));
}

#[test]
fn rect_contains_is_half_open() {
    let r = Rect::new(0, 0, 10, 10);
    assert!(r.contains(Point::new(0, 0)));
    assert!(r.contains(Point::new(9, 9)));
    assert!(!r.contains(Point::new(10, 5)));
    assert!(!r.contains(Point::new(-1, 5)));
}

#[test]
fn rect_clamp() {
    let r = Rect::new(0, 0, 100, 100);
    assert_eq!(r.clamp(Point::new(-5, 200)), Point::new(0, 99));
    assert_eq!(r.clamp(Point::new(50, 50)), Point::new(50, 50));
}

#[test]
fn edge_set_roundtrip() {
    let s = EdgeSet::from_edges(&[Edge::Left, Edge::Top]);
    assert!(s.contains(Edge::Left));
    assert!(s.contains(Edge::Top));
    assert!(!s.contains(Edge::Right));
    assert!(!s.is_empty());
    assert!(EdgeSet::empty().is_empty());
}

#[test]
fn edge_opposite() {
    assert_eq!(Edge::Left.opposite(), Edge::Right);
    assert_eq!(Edge::Bottom.opposite(), Edge::Top);
}

#[test]
fn edge_helpers_are_consistent() {
    for e in Edge::ALL {
        assert_eq!(e.opposite().opposite(), e);
    }
}

#[test]
fn rect_center_rounds_toward_zero_for_negative_sizes() {
    let r = Rect::new(0, 0, -3, -5);
    assert_eq!(r.center(), Point::new(-1, -2));
    let r = Rect::new(-1920, 0, 1920, 1081);
    assert_eq!(r.center(), Point::new(-960, 540));
}

#[test]
fn rect_clamp_lands_inside() {
    let r = Rect::new(-10, -10, 5, 3);
    let q = r.clamp(Point::new(i32::MAX, i32::MIN));
    assert_eq!(q, Point::new(-6, -10));
    assert!(r.contains(q));
}

#[test]
fn edge_set_insert_and_default() {
    let mut s = EdgeSet::default();
    assert!(s.is_empty());
    s.insert(Edge::Bottom);
    s.insert(Edge::Bottom);
    assert!(s.contains(Edge::Bottom));
    assert!(!s.contains(Edge::Top));
    let t = s.with(Edge::Right);
    assert!(t.contains(Edge::Right) && t.contains(Edge::Bottom));
    assert!(!t.contains(Edge::Left));
    assert_eq!(EdgeSet::from_edges(&[]), EdgeSet::empty());
}

// ---- input ------------------------------------------------------------------

#[test]
fn modmask_ops() {
    let m = ModMask::shift() | ModMask::control();
    assert!(m.contains(ModMask::shift()));
    assert!(m.contains(ModMask::control()));
    assert!(!m.contains(ModMask::alt()));

    let mut m2 = m;
    m2.remove(ModMask::shift());
    assert!(!m2.contains(ModMask::shift()));
    assert!(m2.contains(ModMask::control()));

    m2.set(ModMask::alt(), true);
    assert!(m2.contains(ModMask::alt()));
}

#[test]
fn modmask_from_bits_truncate_drops_unknown() {
    let all = ModMask::shift()
        | ModMask::control()
        | ModMask::alt()
        | ModMask::meta()
        | ModMask::super_key()
        | ModMask::alt_gr()
        | ModMask::caps_lock()
        | ModMask::num_lock();
    assert_eq!(ModMask::from_bits_truncate(0xFFFF_FFFF).bits(), all.bits());
}

#[test]
fn key_event_is_constructible() {
    let e = KeyEvent {
        hid: 0x04,
        ch: Some('a'),
        mods: ModMask::empty(),
        action: KeyAction::Down,
    };
    assert_eq!(e.action, KeyAction::Down);
}

#[test]
fn modmask_bits_and_set_off() {
    assert_eq!(ModMask::caps_lock().bits(), 0x1000);
    assert_eq!((ModMask::caps_lock() | ModMask::num_lock()).bits(), 0x3000);
    assert_eq!((ModMask::shift() & ModMask::control()).bits(), 0);
    let mut m = ModMask::empty();
    assert!(m.is_empty());
    m |= ModMask::meta();
    m.insert(ModMask::super_key());
    assert_eq!(m.bits(), 0x18);
    m.set(ModMask::meta(), false);
    assert_eq!(m.bits(), 0x10);
    assert!(m.contains(ModMask::empty()));
    assert_eq!(ModMask::from_bits_truncate(0x4001).bits(), 0x0001);
}

// ---- clipboard --------------------------------------------------------------

#[test]
fn stream_then_assemble_roundtrips() {
    let data: Vec<u8> = (0..100_000u32).map(|i| i as u8).collect();
    let mut assembler = ChunkAssembler::new();
    let mut out = None;
    for chunk in Chunk::stream(&data) {
        out = assembler.push(chunk).unwrap();
    }
    assert_eq!(out.unwrap(), data);
}

#[test]
fn empty_payload_roundtrips() {
    let mut assembler = ChunkAssembler::new();
    assert_eq!(assembler.push(Chunk::Start { total: 0 }).unwrap(), None);
    assert_eq!(assembler.push(Chunk::End).unwrap(), Some(Vec::new()));
}

#[test]
fn data_before_start_is_rejected() {
    let mut assembler = ChunkAssembler::new();
    assert_eq!(assembler.push(Chunk::Data(vec![1])), Err(ChunkError::NotStarted));
}

#[test]
fn length_mismatch_is_rejected() {
    let mut assembler = ChunkAssembler::new();
    assembler.push(Chunk::Start { total: 10 }).unwrap();
    assembler.push(Chunk::Data(vec![0; 3])).unwrap();
    assert_eq!(
        assembler.push(Chunk::End),
        Err(ChunkError::LengthMismatch {
            expected: 10,
            actual: 3
        })
    );
}

#[test]
fn chunk_after_end_is_rejected() {
    let mut assembler = ChunkAssembler::new();
    assembler.push(Chunk::Start { total: 0 }).unwrap();
    assembler.push(Chunk::End).unwrap();
    assert_eq!(assembler.push(Chunk::End), Err(ChunkError::AfterEnd));
}

#[test]
fn stream_shape() {
    let data = vec![7u8; CHUNK_SIZE * 2 + 1];
    let chunks = Chunk::stream(&data);
    assert_eq!(chunks.len(), 5);
    assert_eq!(chunks[0], Chunk::Start { total: (CHUNK_SIZE * 2 + 1) as u64 });
    assert_eq!(chunks[1], Chunk::Data(vec![7u8; CHUNK_SIZE]));
    assert_eq!(chunks[2], Chunk::Data(vec![7u8; CHUNK_SIZE]));
    assert_eq!(chunks[3], Chunk::Data(vec![7u8; 1]));
    assert_eq!(chunks[4], Chunk::End);
    assert_eq!(Chunk::stream(&[]), vec![Chunk::Start { total: 0 }, Chunk::End]);
}

#[test]
fn double_start_and_end_before_start_are_rejected() {
    let mut assembler = ChunkAssembler::default();
    assert_eq!(assembler.push(Chunk::End), Err(ChunkError::NotStarted));
    assembler.push(Chunk::Start { total: 0 }).unwrap();
    assert_eq!(assembler.push(Chunk::Start { total: 3 }), Err(ChunkError::DoubleStart));
    // Unknown total (0) accepts any length.
    assembler.push(Chunk::Data(vec![1, 2])).unwrap();
    assembler.push(Chunk::Data(vec![3])).unwrap();
    assert_eq!(assembler.push(Chunk::End), Ok(Some(vec![1, 2, 3])));
    assert_eq!(assembler.push(Chunk::Data(vec![4])), Err(ChunkError::AfterEnd));
}

#[test]
fn length_mismatch_leaves_stream_open() {
    let mut assembler = ChunkAssembler::new();
    assembler.push(Chunk::Start { total: 2 }).unwrap();
    assembler.push(Chunk::Data(vec![9])).unwrap();
    assert!(assembler.push(Chunk::End).is_err());
    assembler.push(Chunk::Data(vec![8])).unwrap();
    assert_eq!(assembler.push(Chunk::End), Ok(Some(vec![9, 8])));
}

#[test]
fn huge_declared_total_does_not_panic() {
    let mut assembler = ChunkAssembler::new();
    assert_eq!(assembler.push(Chunk::Start { total: u64::MAX }), Ok(None));
    assembler.push(Chunk::Data(vec![1])).unwrap();
    assert_eq!(
        assembler.push(Chunk::End),
        Err(ChunkError::LengthMismatch { expected: u64::MAX, actual: 1 })
    );
}

// ---- version ----------------------------------------------------------------

#[test]
fn same_major_is_compatible() {
    assert!(Version::new(1, 0).is_compatible_with(Version::new(1, 7)));
    assert!(Version::new(1, 4).is_compatible_with(Version::new(1, 0)));
}

#[test]
fn different_major_is_incompatible() {
    assert!(!Version::new(1, 0).is_compatible_with(Version::new(2, 0)));
}

#[test]
fn negotiate_picks_lower_minor() {
    let v = Version::new(1, 6).negotiate(Version::new(1, 2)).unwrap();
    assert_eq!(v, Version::new(1, 2));
    let v = Version::new(1, 1).negotiate(Version::new(1, 9)).unwrap();
    assert_eq!(v, Version::new(1, 1));
}

#[test]
fn negotiate_rejects_major_mismatch() {
    let err = Version::new(1, 0)
        .negotiate(Version::new(3, 0))
        .unwrap_err();
    assert_eq!(err.local, Version::new(1, 0));
    assert_eq!(err.remote, Version::new(3, 0));
}

#[test]
fn protocol_version_is_one_zero() {
    assert_eq!(protocol_version(), Version::new(1, 0));
    assert_eq!(protocol_version().negotiate(protocol_version()), Ok(protocol_version()));
}

// ---- messages ---------------------------------------------------------------

#[test]
fn close_reason_display() {
    assert_eq!(CloseReason::Timeout.to_string(), "keep-alive timeout");
}

#[test]
fn options_default_is_sane() {
    let o = Options::default();
    assert!(o.clipboard_sharing);
    assert!(o.scroll_lock_locks);
}

#[test]
fn close_reason_texts() {
    assert_eq!(CloseReason::ServerShutdown.to_string(), "server shutdown");
    assert_eq!(CloseReason::ProtocolError.to_string(), "protocol error");
    assert_eq!(CloseReason::Reconfigured.to_string(), "screen reconfigured");
}

#[test]
fn options_default_in_full() {
    let o = Options::default();
    assert_eq!(o.clipboard_max_bytes, 0);
    assert!(!o.screensaver_sync);
    assert!(o.relative_mouse_moves);
}

// ---- time -------------------------------------------------------------------

#[test]
fn duration_parts() {
    let d = Duration::from_millis(2500);
    assert_eq!(d.as_secs(), 2);
    assert_eq!(d.subsec_nanos(), 500_000_000);
    assert_eq!(Duration::new(1, 1_500_000_000), Duration::new(2, 500_000_000));
    assert_eq!(Duration::from_secs(3).saturating_mul(3), Duration::from_secs(9));
    assert_eq!(Duration::from_millis(2500).saturating_mul(3), Duration::from_millis(7500));
    let max = Duration::new(u64::MAX, 999_999_999);
    assert_eq!(Duration::from_secs(u64::MAX).saturating_mul(2), max);
    assert_eq!(Duration::from_secs(5).max(Duration::from_secs(4)), Duration::from_secs(5));
    assert_eq!(Duration::from_millis(4999).max(Duration::from_secs(5)), Duration::from_secs(5));
}

// ---- codec ------------------------------------------------------------------

#[test]
fn frame_layout_is_little_endian_length_then_payload() {
    let ms = MessageStream::new(());
    assert_eq!(ms.max_frame(), DEFAULT_MAX_FRAME);
    let f = ms.frame(&[0xAA, 0xBB, 0xCC]).unwrap();
    assert_eq!(f, vec![3, 0, 0, 0, 0xAA, 0xBB, 0xCC]);
    let f = ms.frame(&vec![1u8; 0x0102]).unwrap();
    assert_eq!(&f[..4], &[0x02, 0x01, 0, 0]);
    assert_eq!(f.len(), 4 + 0x0102);
    assert_eq!(ms.frame(&[]).unwrap(), vec![0, 0, 0, 0]);
}

#[test]
fn frame_header_roundtrips() {
    let ms = MessageStream::new(()).with_max_frame(1 << 20);
    let payload = vec![5u8; 70_000];
    let f = ms.frame(&payload).unwrap();
    let header = [f[0], f[1], f[2], f[3]];
    assert_eq!(ms.payload_len(&header).unwrap(), payload.len());
    assert_eq!(&f[4..], &payload[..]);
}

#[test]
fn oversized_frames_are_refused_both_ways() {
    let ms = MessageStream::new(()).with_max_frame(1024);
    match ms.frame(&vec![0u8; 1025]) {
        Err(CodecError::FrameTooLarge { size, max }) => {
            assert_eq!(size, 1025);
            assert_eq!(max, 1024);
        }
        other => panic!("expected FrameTooLarge, got {other:?}"),
    }
    assert!(ms.frame(&vec![0u8; 1024]).is_ok());
}

#[test]
fn oversized_declared_length_is_rejected_without_alloc() {
    let ms = MessageStream::new(()).with_max_frame(1024);
    // A declared 1 GB frame is rejected from its header alone.
    let header = 1_000_000_000u32.to_le_bytes();
    match ms.payload_len(&header) {
        Err(CodecError::FrameTooLarge { size, max }) => {
            assert_eq!(size, 1_000_000_000);
            assert_eq!(max, 1024);
        }
        other => panic!("expected FrameTooLarge, got {other:?}"),
    }
    assert_eq!(ms.payload_len(&1024u32.to_le_bytes()).unwrap(), 1024);
}

#[test]
fn stream_accessors_and_read_target() {
    let mut ms = MessageStream::new(41u32);
    *ms.get_mut() += 1;
    assert_eq!(*ms.get_ref(), 42);
    {
        let (inner, buf) = ms.read_target(3);
        assert_eq!(*inner, 42);
        assert_eq!(buf, &vec![0u8; 3]);
        buf[1] = 9;
    }
    assert_eq!(ms.received(), &[0, 9, 0]);
    ms.read_target(1);
    assert_eq!(ms.received(), &[0]);
    assert_eq!(ms.into_inner(), 42);
}

#[test]
fn eof_at_a_frame_boundary_is_a_clean_close() {
    let e = std::io::Error::from(std::io::ErrorKind::UnexpectedEof);
    assert!(matches!(
        geserdesk::codec::read_header_failed(e, 0),
        CodecError::Closed
    ));
}

#[test]
fn eof_inside_a_header_is_an_io_error_not_a_close() {
    for got in 1..4 {
        let e = std::io::Error::from(std::io::ErrorKind::UnexpectedEof);
        match geserdesk::codec::read_header_failed(e, got) {
            CodecError::Io(e) => {
                assert_eq!(e.kind(), std::io::ErrorKind::UnexpectedEof);
                assert_eq!(e.to_string(), "connection closed mid-frame");
            }
            other => panic!("expected io error, got {other:?}"),
        }
    }
}

#[test]
fn other_header_failures_are_stream_errors() {
    let e = std::io::Error::from(std::io::ErrorKind::ConnectionReset);
    match geserdesk::codec::read_header_failed(e, 0) {
        CodecError::Io(e) => assert_eq!(e.kind(), std::io::ErrorKind::ConnectionReset),
        other => panic!("expected io error, got {other:?}"),
    }
}

#[test]
fn eof_mid_frame_is_an_io_error_not_a_close() {
    let e = std::io::Error::from(std::io::ErrorKind::UnexpectedEof);
    match geserdesk::codec::read_payload_failed(e) {
        CodecError::Io(e) => {
            assert_eq!(e.kind(), std::io::ErrorKind::UnexpectedEof);
            assert_eq!(e.to_string(), "connection closed mid-frame");
        }
        other => panic!("expected io error, got {other:?}"),
    }
    let e = std::io::Error::from(std::io::ErrorKind::BrokenPipe);
    match geserdesk::codec::read_payload_failed(e) {
        CodecError::Io(e) => assert_eq!(e.kind(), std::io::ErrorKind::BrokenPipe),
        other => panic!("expected io error, got {other:?}"),
    }
}

#[test]
fn unknown_total_accepts_any_run_of_data() {
    let mut assembler = ChunkAssembler::new();
    assert_eq!(assembler.push(Chunk::Start { total: 0 }).unwrap(), None);
    assert_eq!(assembler.push(Chunk::Data(vec![1, 2])).unwrap(), None);
    assert_eq!(assembler.push(Chunk::Data(vec![])).unwrap(), None);
    assert_eq!(assembler.push(Chunk::Data(vec![3])).unwrap(), None);
    assert_eq!(assembler.push(Chunk::End).unwrap(), Some(vec![1, 2, 3]));

    let mut assembler = ChunkAssembler::new();
    assembler.push(Chunk::Start { total: 2 }).unwrap();
    assembler.push(Chunk::Data(vec![7])).unwrap();
    assembler.push(Chunk::Data(vec![8, 9])).unwrap();
    assert_eq!(
        assembler.push(Chunk::End),
        Err(ChunkError::LengthMismatch { expected: 2, actual: 3 })
    );
}
