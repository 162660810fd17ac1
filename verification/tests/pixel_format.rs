use encargs::pixel_format::PixelFormat;

#[test]
fn quality_order_is_monotonic() {
    assert!(PixelFormat::Yuv420p.lt(PixelFormat::Yuv420p10le));
    assert!(PixelFormat::Yuv420p10le.lt(PixelFormat::Yuv422p10le));
    assert!(PixelFormat::Yuv422p10le.lt(PixelFormat::Yuv444p10le));
    assert!(!PixelFormat::Yuv444p10le.lt(PixelFormat::Yuv420p));
    assert!(!PixelFormat::Yuv420p.lt(PixelFormat::Yuv420p));
}

#[test]
fn ranks_are_distinct_and_ordered() {
    let all = [
        PixelFormat::Yuv420p,
        PixelFormat::Yuv420p10le,
        PixelFormat::Yuv422p10le,
        PixelFormat::Yuv444p10le,
    ];
    for (i, a) in all.iter().enumerate() {
        for (j, b) in all.iter().enumerate() {
            assert_eq!(a.lt(*b), i < j);
        }
    }
}

#[test]
fn max_picks_the_higher_format() {
    assert_eq!(
        PixelFormat::Yuv420p.max(PixelFormat::Yuv422p10le),
        PixelFormat::Yuv422p10le
    );
    assert_eq!(
        PixelFormat::Yuv444p10le.max(PixelFormat::Yuv420p10le),
        PixelFormat::Yuv444p10le
    );
}

#[test]
fn opt_max_combines_optional_formats() {
    assert_eq!(
        PixelFormat::opt_max(Some(PixelFormat::Yuv420p), Some(PixelFormat::Yuv444p10le)),
        Some(PixelFormat::Yuv444p10le)
    );
    assert_eq!(
        PixelFormat::opt_max(Some(PixelFormat::Yuv422p10le), None),
        Some(PixelFormat::Yuv422p10le)
    );
    assert_eq!(
        PixelFormat::opt_max(None, Some(PixelFormat::Yuv420p)),
        Some(PixelFormat::Yuv420p)
    );
    assert_eq!(PixelFormat::opt_max(None, None), None);
}

#[test]
fn names_round_trip() {
    let all = [
        PixelFormat::Yuv420p,
        PixelFormat::Yuv420p10le,
        PixelFormat::Yuv422p10le,
        PixelFormat::Yuv444p10le,
    ];
    for pf in all {
        assert_eq!(PixelFormat::from_name(pf.name()), Some(pf));
    }
    assert_eq!(PixelFormat::from_name("nv12"), None);
    assert_eq!(PixelFormat::Yuv420p.name(), "yuv420p");
}
