use encargs::encoder::{Encoder, EncoderKind};
use encargs::vmaf::VmafScale;

fn kind_of(name: &str) -> EncoderKind {
    Encoder::new(name.to_string()).kind()
}

#[test]
fn families_are_selected_by_name_or_suffix() {
    assert_eq!(kind_of("libsvtav1"), EncoderKind::SvtAv1);
    assert_eq!(kind_of("svt-av1"), EncoderKind::SvtAv1);
    assert_eq!(kind_of("libaom-av1"), EncoderKind::Aom);
    assert_eq!(kind_of("libvpx-vp9"), EncoderKind::Vp9);
    assert_eq!(kind_of("librav1e"), EncoderKind::Rav1e);
    assert_eq!(kind_of("hevc_vaapi"), EncoderKind::Vaapi);
    assert_eq!(kind_of("h264_vulkan"), EncoderKind::Vulkan);
    assert_eq!(kind_of("h264_cuvid"), EncoderKind::Cuvid);
    assert_eq!(kind_of("hevc_qsv"), EncoderKind::Qsv);
    assert_eq!(kind_of("libx264"), EncoderKind::Other);
}

#[test]
fn alias_is_normalized_to_the_tool_name() {
    assert_eq!(Encoder::new("svt-av1".to_string()).name, "libsvtav1");
    assert_eq!(Encoder::new("libsvtav1".to_string()).name, "libsvtav1");
    assert_eq!(Encoder::new("libx264".to_string()).name, "libx264");
}

#[test]
fn family_defaults() {
    let svt = Encoder::new("libsvtav1".to_string());
    assert_eq!(svt.default_preset(), Some("8"));
    assert!(svt.prefers_10bit());
    assert_eq!(svt.default_image_ext(), "avif");
    assert_eq!(svt.default_crf_increment_tenths(), 10);
    assert_eq!(svt.max_crf_tenths(), 550);
    assert_eq!(svt.min_crf_tenths(), 100);

    let x264 = Encoder::new("libx264".to_string());
    assert_eq!(x264.max_crf_tenths(), 460);
    assert_eq!(x264.default_image_ext(), "264");

    let x265 = Encoder::new("libx265".to_string());
    assert_eq!(x265.default_preset(), None);
    assert!(!x265.prefers_10bit());
    assert_eq!(x265.default_crf_increment_tenths(), 1);
    assert_eq!(x265.max_crf_tenths(), 460);
    assert_eq!(x265.default_image_ext(), "265");

    let rav1e = Encoder::new("librav1e".to_string());
    assert!(rav1e.prefers_10bit());
    assert_eq!(rav1e.max_crf_tenths(), 2550);
    assert_eq!(rav1e.default_image_ext(), "avif");
    assert_eq!(
        Encoder::new("av1_vaapi".to_string()).max_crf_tenths(),
        2550
    );

    let mpeg2 = Encoder::new("mpeg2video".to_string());
    assert_eq!(mpeg2.max_crf_tenths(), 300);
    assert_eq!(mpeg2.min_crf_tenths(), 20);

    let vp9 = Encoder::new("libvpx-vp9".to_string());
    assert_eq!(vp9.default_output_args(), vec!["-b:v", "0"]);
    assert_eq!(vp9.default_image_ext(), "avif");

    let qsv = Encoder::new("hevc_qsv".to_string());
    assert_eq!(
        qsv.default_output_args(),
        vec!["-look_ahead", "1", "-extbrc", "1", "-look_ahead_depth", "40"]
    );
    assert!(qsv.default_input_args().is_empty());
}

#[test]
fn scale_spelling_round_trips() {
    let cases = [
        VmafScale::Disabled,
        VmafScale::Auto,
        VmafScale::Custom {
            width: 1920,
            height: 1080,
        },
        VmafScale::Custom {
            width: 0,
            height: 4294967295,
        },
    ];
    for v in cases {
        assert_eq!(encargs::vmaf::parse_vmaf_scale(&v.spelling()), Ok(v));
    }
    assert_eq!(VmafScale::Disabled.spelling(), "none");
    assert_eq!(VmafScale::Auto.spelling(), "auto");
    assert_eq!(
        VmafScale::Custom {
            width: 1920,
            height: 1080,
        }
        .spelling(),
        "1920x1080"
    );
}
