use encargs::fps::{parse_fps_value, try_parse_fps_vfilter, Fps};

#[test]
fn parse_plain_and_rational() {
    assert_eq!(parse_fps_value("24"), Some(Fps { num: 24, den: 1 }));
    assert_eq!(
        parse_fps_value("24000/1001"),
        Some(Fps {
            num: 24000,
            den: 1001,
        })
    );
    assert_eq!(
        parse_fps_value("23.976"),
        Some(Fps {
            num: 23976,
            den: 1000,
        })
    );
    assert_eq!(parse_fps_value("0"), None);
    assert_eq!(parse_fps_value("24/0"), None);
    assert_eq!(parse_fps_value("fast"), None);
    assert_eq!(parse_fps_value(""), None);
}

#[test]
fn parse_named_rates() {
    assert_eq!(parse_fps_value("film"), Some(Fps { num: 24, den: 1 }));
    assert_eq!(parse_fps_value("pal"), Some(Fps { num: 25, den: 1 }));
    assert_eq!(
        parse_fps_value("ntsc"),
        Some(Fps {
            num: 30000,
            den: 1001,
        })
    );
    assert_eq!(
        parse_fps_value("ntsc_film"),
        Some(Fps {
            num: 24000,
            den: 1001,
        })
    );
}

#[test]
fn fps_from_vfilter() {
    assert_eq!(
        try_parse_fps_vfilter("scale=1280:-1,fps=24"),
        Some(Fps { num: 24, den: 1 })
    );
    assert_eq!(
        try_parse_fps_vfilter("fps=film"),
        Some(Fps { num: 24, den: 1 })
    );
    assert_eq!(
        try_parse_fps_vfilter("crop=10:10:0:0, fps=30000/1001 ,hue=s=0"),
        Some(Fps {
            num: 30000,
            den: 1001,
        })
    );
    assert_eq!(try_parse_fps_vfilter("scale=1280:-1"), None);
    // the first fps token decides, even when unparseable
    assert_eq!(try_parse_fps_vfilter("fps=junk,fps=24"), None);
    // spaces around the value are trimmed
    assert_eq!(
        try_parse_fps_vfilter("fps= 24"),
        Some(Fps { num: 24, den: 1 })
    );
    assert_eq!(
        try_parse_fps_vfilter("scale=1280:-1, fps= film "),
        Some(Fps { num: 24, den: 1 })
    );
}
