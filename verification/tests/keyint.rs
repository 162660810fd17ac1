use encargs::fps::Fps;
use encargs::keyint::{parse_key_interval, KeyInterval};

#[test]
fn parse_frame_count() {
    assert_eq!(parse_key_interval("300"), Ok(KeyInterval::Frames(300)));
    assert_eq!(parse_key_interval("0"), Ok(KeyInterval::Frames(0)));
}

#[test]
fn parse_duration() {
    assert_eq!(
        parse_key_interval("10s"),
        Ok(KeyInterval::Duration(10_000))
    );
    assert_eq!(parse_key_interval("500ms"), Ok(KeyInterval::Duration(500)));
    assert_eq!(
        parse_key_interval("2m"),
        Ok(KeyInterval::Duration(120_000))
    );
    assert_eq!(
        parse_key_interval("1h"),
        Ok(KeyInterval::Duration(3_600_000))
    );
    // spelled-out unit aliases
    assert_eq!(
        parse_key_interval("30sec"),
        Ok(KeyInterval::Duration(30_000))
    );
    assert_eq!(
        parse_key_interval("2min"),
        Ok(KeyInterval::Duration(120_000))
    );
    assert_eq!(
        parse_key_interval("1hr"),
        Ok(KeyInterval::Duration(3_600_000))
    );
    // a duration is one number with one unit: compound spellings fail
    assert!(parse_key_interval("1m 30s").is_err());
}

#[test]
fn parse_invalid_reports_both_reasons() {
    let err = parse_key_interval("ten seconds").unwrap_err();
    assert_eq!(
        err.int_reason,
        "expected an unsigned whole number of frames"
    );
    assert_eq!(
        err.duration_reason,
        "expected a number followed by a time unit (ms, s, m, h)"
    );
    assert_eq!(
        err.message(),
        "not a keyframe interval: expected an unsigned whole number of frames; \
         expected a number followed by a time unit (ms, s, m, h)"
    );
}

#[test]
fn parse_overflow_reports_both_reasons() {
    // twenty-one digits: too many for a machine word
    let err = parse_key_interval("999999999999999999999").unwrap_err();
    assert_eq!(err.int_reason, "frame count too large");
    assert_eq!(
        err.duration_reason,
        "expected a number followed by a time unit (ms, s, m, h)"
    );
    let err = parse_key_interval("999999999999999999999s").unwrap_err();
    assert_eq!(err.duration_reason, "duration too large");
}

#[test]
fn frames_from_frame_count() {
    let fps = Fps { num: 24, den: 1 };
    assert_eq!(KeyInterval::Frames(300).frames(Some(&fps)), Ok(300));
    assert_eq!(KeyInterval::Frames(300).frames(None), Ok(300));
}

#[test]
fn frames_from_duration() {
    // 10 s at 24 fps
    let film = Fps { num: 24, den: 1 };
    assert_eq!(KeyInterval::Duration(10_000).frames(Some(&film)), Ok(240));
    // 10 s at 30000/1001 fps: 299.7002... rounds to 300
    let ntsc = Fps { num: 30000, den: 1001 };
    assert_eq!(KeyInterval::Duration(10_000).frames(Some(&ntsc)), Ok(300));
    // 1 s at 23.976 fps rounds to 24
    let dec = Fps { num: 23976, den: 1000 };
    assert_eq!(KeyInterval::Duration(1_000).frames(Some(&dec)), Ok(24));
}

#[test]
fn duration_without_rate_is_unresolvable() {
    let r = KeyInterval::Duration(10_000).frames(None);
    assert!(r.is_err());
    let bad = Fps { num: 0, den: 1 };
    assert!(KeyInterval::Duration(10_000).frames(Some(&bad)).is_err());
}
