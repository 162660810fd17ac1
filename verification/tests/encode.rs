use encargs::cuda_scaling_method::apply_cuda_scaling_method;
use encargs::encode::{Crop, Encode};
use encargs::encoder::Encoder;
use encargs::error::EncodeError;
use encargs::fps::Fps;
use encargs::keyint::KeyInterval;
use encargs::pixel_format::PixelFormat;
use encargs::probe::Probe;
use encargs::vmaf_cuda_path_detection::find_vmaf_cuda;

fn enc(name: &str) -> Encode {
    Encode::new(Encoder::new(name.to_string()), "in.mkv".to_string())
}

fn probe(duration_ms: Option<u64>, fps: Option<Fps>) -> Probe {
    Probe {
        duration_ms,
        fps,
        resolution: None,
        audio_channels: None,
        is_image: false,
    }
}

#[test]
fn long_input_gets_default_interval_and_scene_change() {
    // three hundred seconds probed at 30 fps, but the filter fixes 24 fps
    let mut e = enc("libsvtav1");
    e.vfilter = Some("fps=film".to_string());
    e.svt_args = vec!["rc=1".to_string()];
    let p = probe(Some(300_000), Some(Fps { num: 30, den: 1 }));
    let a = e.to_ffmpeg_args(230, &p, None).unwrap();
    let out = &a.output_args;
    let pos = out.iter().position(|t| t == "-svtav1-params").unwrap();
    assert_eq!(out[pos + 1], "scd=1:rc=1");
    let g = out.iter().position(|t| t == "-g").unwrap();
    assert_eq!(out[g + 1], "240");
    assert_eq!(a.preset.as_deref(), Some("8"));
    assert_eq!(a.pix_fmt, Some(PixelFormat::Yuv420p10le));
    assert_eq!(a.crf_tenths, 230);
    assert!(!a.video_only);
    assert_eq!(a.vcodec, "libsvtav1");
    assert_eq!(a.input, "in.mkv");
}

#[test]
fn short_input_gets_no_interval() {
    let mut e = enc("libsvtav1");
    e.preset = Some("7".to_string());
    e.pix_format = Some(PixelFormat::Yuv420p);
    let p = probe(Some(179_000), Some(Fps { num: 24, den: 1 }));
    let a = e.to_ffmpeg_args(230, &p, None).unwrap();
    let out = &a.output_args;
    let pos = out.iter().position(|t| t == "-svtav1-params").unwrap();
    assert_eq!(out[pos + 1], "scd=0");
    assert!(!out.iter().any(|t| t == "-g"));
    assert_eq!(a.preset.as_deref(), Some("7"));
    assert_eq!(a.pix_fmt, Some(PixelFormat::Yuv420p));
}

#[test]
fn scene_change_follows_computed_default_despite_explicit_false() {
    // a computed default interval turns scene-change detection on even
    // against an explicit `false`; an explicit `true` works alone
    let mut e = enc("libsvtav1");
    e.scd = Some(false);
    let p = probe(Some(300_000), Some(Fps { num: 24, den: 1 }));
    let a = e.to_ffmpeg_args(230, &p, None).unwrap();
    let out = &a.output_args;
    let pos = out.iter().position(|t| t == "-svtav1-params").unwrap();
    assert_eq!(out[pos + 1], "scd=1");

    let mut e = enc("libsvtav1");
    e.scd = Some(true);
    let p = probe(Some(10_000), None);
    let a = e.to_ffmpeg_args(230, &p, None).unwrap();
    let out = &a.output_args;
    let pos = out.iter().position(|t| t == "-svtav1-params").unwrap();
    assert_eq!(out[pos + 1], "scd=1");
}

#[test]
fn explicit_frame_interval_wins() {
    let mut e = enc("libsvtav1");
    e.keyint = Some(KeyInterval::Frames(120));
    let p = probe(Some(300_000), Some(Fps { num: 30, den: 1 }));
    let a = e.to_ffmpeg_args(230, &p, None).unwrap();
    let out = &a.output_args;
    let g = out.iter().position(|t| t == "-g").unwrap();
    assert_eq!(out[g + 1], "120");
    // explicit interval: scene change is off unless requested
    let pos = out.iter().position(|t| t == "-svtav1-params").unwrap();
    assert_eq!(out[pos + 1], "scd=0");
}

#[test]
fn duration_interval_without_rate_fails() {
    let mut e = enc("libsvtav1");
    e.keyint = Some(KeyInterval::Duration(10_000));
    let p = probe(Some(300_000), None);
    assert_eq!(
        e.to_ffmpeg_args(230, &p, None),
        Err(EncodeError::UnresolvableFrameRate)
    );
    let msg = EncodeError::UnresolvableFrameRate.message();
    assert_eq!(msg, "a duration keyframe interval needs a resolvable frame rate");
}

#[test]
fn svt_args_need_the_svt_encoder() {
    let mut e = enc("libx264");
    e.svt_args = vec!["rc=1".to_string()];
    let p = probe(None, None);
    match e.to_ffmpeg_args(230, &p, None) {
        Err(EncodeError::WrongEncoderForSvtArgs { encoder }) => {
            assert_eq!(encoder, "libx264");
        }
        other => panic!("expected a wrong-encoder failure, got {other:?}"),
    }
    // and no codec-specific parameter argument is emitted for it
    let ok = enc("libx264").to_ffmpeg_args(230, &p, None).unwrap();
    assert!(!ok.output_args.iter().any(|t| t == "-svtav1-params"));
}

#[test]
fn params_via_generic_channel_are_refused() {
    let mut e = enc("libsvtav1");
    e.enc_args = vec!["svtav1-params=lookahead=0".to_string()];
    let p = probe(None, None);
    assert_eq!(
        e.to_ffmpeg_args(230, &p, None),
        Err(EncodeError::SvtParamsViaGenericArgs)
    );
}

#[test]
fn reserved_output_flags_are_refused() {
    let mut e = enc("libsvtav1");
    e.enc_args = vec!["pix_fmt=yuv420p".to_string()];
    let p = probe(None, None);
    match e.to_ffmpeg_args(230, &p, None) {
        Err(EncodeError::ReservedOutputArg { flag }) => {
            assert_eq!(flag, "-pix_fmt");
            let msg = EncodeError::ReservedOutputArg { flag }.message();
            assert_eq!(
                msg,
                "reserved output arg -pix_fmt (use the dedicated pixel-format option)"
            );
        }
        other => panic!("expected a reserved-flag failure, got {other:?}"),
    }
    // every spelling of codec selection is reserved on the output side
    for arg in ["c:a=copy", "codec:a=copy", "acodec=copy", "c:v=x", "c:v:0=x", "codec:v=x",
        "codec:v:0=x", "vcodec=x"]
    {
        let mut e = enc("libsvtav1");
        e.enc_args = vec![arg.to_string()];
        match e.to_ffmpeg_args(230, &p, None) {
            Err(EncodeError::ReservedOutputArg { flag }) => {
                assert_eq!(format!("-{}", arg.split_once('=').unwrap().0), flag);
            }
            other => panic!("expected a reserved-flag failure, got {other:?}"),
        }
    }
}

#[test]
fn reserved_input_flags_are_refused() {
    let mut e = enc("libsvtav1");
    e.enc_input_args = vec!["y=1".to_string()];
    let p = probe(None, None);
    match e.to_ffmpeg_args(230, &p, None) {
        Err(EncodeError::ReservedInputArg { flag }) => assert_eq!(flag, "-y"),
        other => panic!("expected a reserved-flag failure, got {other:?}"),
    }
    // codec selection stays available on the input side (hardware decoders)
    let mut e = enc("libsvtav1");
    e.enc_input_args = vec!["c:v=h264_cuvid".to_string()];
    assert!(e.to_ffmpeg_args(230, &p, None).is_ok());
}

#[test]
fn passthrough_and_pairs_flatten() {
    let mut e = enc("libx264");
    e.enc_args = vec!["movflags=+faststart".to_string(), "-an".to_string()];
    let p = probe(None, None);
    let a = e.to_ffmpeg_args(230, &p, None).unwrap();
    assert_eq!(
        a.output_args,
        vec!["-movflags".to_string(), "+faststart".to_string(), "-an".to_string()]
    );
}

#[test]
fn requested_decoder_needs_a_listing() {
    let mut e = enc("libsvtav1");
    e.cuda_decoder = Some("h264_cuvid".to_string());
    let p = probe(None, None);
    match e.to_ffmpeg_args(230, &p, None) {
        Err(EncodeError::DecoderListUnavailable { requested }) => {
            assert_eq!(requested, "h264_cuvid");
        }
        other => panic!("expected a missing-listing failure, got {other:?}"),
    }
}

#[test]
fn unavailable_decoder_is_named_with_alternatives() {
    let mut e = enc("libsvtav1");
    e.cuda_decoder = Some("av1_cuvid".to_string());
    let p = probe(None, None);
    let listed = vec!["h264_cuvid".to_string(), "hevc_cuvid".to_string()];
    match e.to_ffmpeg_args(230, &p, Some(&listed)) {
        Err(e @ EncodeError::UnavailableDecoder { .. }) => {
            assert_eq!(
                e.message(),
                "unavailable decoder av1_cuvid, available: h264_cuvid,hevc_cuvid"
            );
        }
        other => panic!("expected an unavailable-decoder failure, got {other:?}"),
    }
}

#[test]
fn surface_count_is_bounds_checked() {
    let mut e = enc("libsvtav1");
    e.cuda_decoder = Some("h264_cuvid".to_string());
    e.cuda_surfaces = 4;
    let p = probe(None, None);
    let listed = vec!["h264_cuvid".to_string()];
    match e.to_ffmpeg_args(230, &p, Some(&listed)) {
        Err(EncodeError::InvalidSurfaceCount { given }) => {
            assert_eq!(given, 4);
            let msg = EncodeError::InvalidSurfaceCount { given }.message();
            assert_eq!(msg, "invalid surface count 4, expected 8 to 32");
        }
        other => panic!("expected a surface-count failure, got {other:?}"),
    }
    e.cuda_surfaces = 33;
    assert!(matches!(
        e.to_ffmpeg_args(230, &p, Some(&listed)),
        Err(EncodeError::InvalidSurfaceCount { given: 33 })
    ));
    e.cuda_surfaces = 8;
    assert!(e.to_ffmpeg_args(230, &p, Some(&listed)).is_ok());
}

#[test]
fn requested_decoder_builds_the_input_pipeline() {
    let mut e = enc("libx264");
    e.cuda_decoder = Some("h264_cuvid".to_string());
    let p = probe(None, None);
    let listed = vec!["h264_cuvid".to_string()];
    let a = e.to_ffmpeg_args(230, &p, Some(&listed)).unwrap();
    assert_eq!(
        a.input_args,
        vec![
            "-hwaccel".to_string(),
            "cuda".to_string(),
            "-hwaccel_output_format".to_string(),
            "cuda".to_string(),
            "-extra_hw_frames".to_string(),
            "16".to_string(),
            "-c:v".to_string(),
            "h264_cuvid".to_string(),
        ]
    );
    // an active decoder fixes the arriving frame format
    assert_eq!(a.pix_fmt, Some(PixelFormat::Yuv420p));
}

#[test]
fn auto_decoder_selection_drives_the_pipeline() {
    let mut e = enc("libx264");
    e.auto_hw_decoder = true;
    e.detected_input_codec = Some("hevc".to_string());
    let p = probe(None, None);
    let a = e.to_ffmpeg_args(230, &p, None).unwrap();
    assert!(a.input_args.iter().any(|t| t == "hevc_cuvid"));
    // an unrecognised codec skips the hardware pipeline entirely
    let mut e = enc("libx264");
    e.auto_hw_decoder = true;
    e.detected_input_codec = Some("mpeg2video".to_string());
    let a = e.to_ffmpeg_args(230, &p, None).unwrap();
    assert!(a.input_args.is_empty());
    assert_eq!(a.pix_fmt, None);
    assert_eq!(a.vfilter, None);
}

#[test]
fn cuda_filters_are_rewritten_and_merged() {
    let mut e = enc("libx264");
    e.auto_hw_decoder = true;
    e.detected_input_codec = Some("h264".to_string());
    e.cuda_filters = vec!["scale".to_string(), "crop".to_string()];
    e.detected_crop = Some(Crop { top: 1920, bottom: 816, left: 0, right: 132 });
    e.vfilter = Some("hue=s=0".to_string());
    let p = probe(None, None);
    let a = e.to_ffmpeg_args(230, &p, None).unwrap();
    assert_eq!(
        a.vfilter.as_deref(),
        Some(
            "hwdownload,format=nv12,\
             hwupload_cuda,crop=1920:816:0:132,\
             scale_cuda=format=nv12:interp_algo=lanczos,\
             hwupload_cuda,hue=s=0"
        )
    );
    // the configured interpolation method is embedded
    let mut e2 = e.clone();
    e2.cuda_scaling_method = Some("bicubic".to_string());
    e2.vfilter = None;
    let a2 = e2.to_ffmpeg_args(230, &p, None).unwrap();
    assert_eq!(
        a2.vfilter.as_deref(),
        Some(
            "hwdownload,format=nv12,\
             hwupload_cuda,crop=1920:816:0:132,\
             scale_cuda=format=nv12:interp_algo=bicubic,\
             hwupload_cuda"
        )
    );
}

#[test]
fn encoder_defaults_are_appended_unless_present() {
    let p = probe(None, None);
    let a = enc("libaom-av1").to_ffmpeg_args(230, &p, None).unwrap();
    assert_eq!(a.output_args, vec!["-b:v".to_string(), "0".to_string()]);
    let mut e = enc("libaom-av1");
    e.enc_args = vec!["b:v=100k".to_string()];
    let a = e.to_ffmpeg_args(230, &p, None).unwrap();
    assert_eq!(a.output_args, vec!["-b:v".to_string(), "100k".to_string()]);
    let a = enc("hevc_vaapi").to_ffmpeg_args(230, &p, None).unwrap();
    assert_eq!(
        a.input_args,
        vec![
            "-hwaccel".to_string(),
            "vaapi".to_string(),
            "-hwaccel_output_format".to_string(),
            "vaapi".to_string(),
        ]
    );
    assert_eq!(a.preset, None);
    // the qsv family gets its lookahead output defaults, and no input args
    let a = enc("hevc_qsv").to_ffmpeg_args(230, &p, None).unwrap();
    assert_eq!(
        a.output_args,
        vec![
            "-look_ahead".to_string(),
            "1".to_string(),
            "-extbrc".to_string(),
            "1".to_string(),
            "-look_ahead_depth".to_string(),
            "40".to_string(),
        ]
    );
    assert!(a.input_args.is_empty());
    // a user-supplied lookahead wins over the default pair
    let mut e = enc("hevc_qsv");
    e.enc_args = vec!["look_ahead=0".to_string()];
    let a = e.to_ffmpeg_args(230, &p, None).unwrap();
    assert_eq!(
        a.output_args,
        vec![
            "-look_ahead".to_string(),
            "0".to_string(),
            "-extbrc".to_string(),
            "1".to_string(),
            "-look_ahead_depth".to_string(),
            "40".to_string(),
        ]
    );
}

#[test]
fn svt_alias_is_normalized() {
    let e = enc("svt-av1");
    let p = probe(None, None);
    let a = e.to_ffmpeg_args(230, &p, None).unwrap();
    assert_eq!(a.vcodec, "libsvtav1");
    assert!(a.output_args.iter().any(|t| t == "-svtav1-params"));
    assert_eq!(a.preset.as_deref(), Some("8"));
}

#[test]
fn rav1e_prefers_ten_bit() {
    let p = probe(None, None);
    let a = enc("librav1e").to_ffmpeg_args(230, &p, None).unwrap();
    assert_eq!(a.pix_fmt, Some(PixelFormat::Yuv420p10le));
    assert!(!a.output_args.iter().any(|t| t == "-svtav1-params"));
}

#[test]
fn scaling_method_filter_is_spelled_out() {
    assert_eq!(
        apply_cuda_scaling_method("lanczos"),
        "scale_cuda=format=nv12:interp_algo=lanczos"
    );
    assert_eq!(
        apply_cuda_scaling_method("bicubic"),
        "scale_cuda=format=nv12:interp_algo=bicubic"
    );
}

#[test]
fn vmaf_cuda_path_is_the_configured_one() {
    assert_eq!(find_vmaf_cuda(), Some("path/to/vmaf_cuda".to_string()));
}
