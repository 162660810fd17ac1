use encargs::pixel_format::PixelFormat;
use encargs::vmaf::{minimally_scale, parse_vmaf_scale, Vmaf, VmafModel, VmafScale};

#[test]
fn vmaf_lavfi() {
    let vmaf = Vmaf {
        vmaf_args: vec!["n_threads=5".to_string(), "n_subsample=4".to_string()],
        ..Default::default()
    };
    assert_eq!(
        vmaf.ffmpeg_lavfi(
            None,
            Some(PixelFormat::Yuv420p),
            Some("scale=1280:-1,fps=24"),
            1,
        ),
        "[0:v]format=yuv420p,setpts=PTS-STARTPTS,settb=AVTB[dis];\
         [1:v]format=yuv420p,scale=1280:-1,fps=24,setpts=PTS-STARTPTS,settb=AVTB[ref];\
         [dis][ref]libvmaf=shortest=true:ts_sync_mode=nearest:n_threads=5:n_subsample=4"
    );
}

#[test]
fn vmaf_lavfi_default() {
    let vmaf = Vmaf::default();
    let expected = format!(
        "[0:v]setpts=PTS-STARTPTS,settb=AVTB[dis];\
         [1:v]setpts=PTS-STARTPTS,settb=AVTB[ref];\
         [dis][ref]libvmaf=shortest=true:ts_sync_mode=nearest:n_threads={}",
        7
    );
    assert_eq!(vmaf.ffmpeg_lavfi(None, None, None, 7), expected);
}

#[test]
fn vmaf_lavfi_default_pix_fmt() {
    let vmaf = Vmaf::default();
    let expected = format!(
        "[0:v]format=yuv420p10le,setpts=PTS-STARTPTS,settb=AVTB[dis];\
         [1:v]format=yuv420p10le,setpts=PTS-STARTPTS,settb=AVTB[ref];\
         [dis][ref]libvmaf=shortest=true:ts_sync_mode=nearest:n_threads={}",
        12
    );
    assert_eq!(
        vmaf.ffmpeg_lavfi(None, Some(PixelFormat::Yuv420p10le), None, 12),
        expected
    );
}

#[test]
fn vmaf_lavfi_include_n_threads() {
    let vmaf = Vmaf {
        vmaf_args: vec!["log_path=output.xml".to_string()],
        ..Default::default()
    };
    let expected = format!(
        "[0:v]format=yuv420p,setpts=PTS-STARTPTS,settb=AVTB[dis];\
         [1:v]format=yuv420p,setpts=PTS-STARTPTS,settb=AVTB[ref];\
         [dis][ref]libvmaf=shortest=true:ts_sync_mode=nearest:log_path=output.xml:n_threads={}",
        3
    );
    assert_eq!(
        vmaf.ffmpeg_lavfi(None, Some(PixelFormat::Yuv420p), None, 3),
        expected
    );
}

/// Low resolution videos should be upscaled to 1080p
#[test]
fn vmaf_lavfi_small_width() {
    let vmaf = Vmaf {
        vmaf_args: vec!["n_threads=5".to_string(), "n_subsample=4".to_string()],
        ..Default::default()
    };
    assert_eq!(
        vmaf.ffmpeg_lavfi(Some((1280, 720)), Some(PixelFormat::Yuv420p), None, 1),
        "[0:v]format=yuv420p,scale=1920:-1:flags=bicubic,setpts=PTS-STARTPTS,settb=AVTB[dis];\
         [1:v]format=yuv420p,scale=1920:-1:flags=bicubic,setpts=PTS-STARTPTS,settb=AVTB[ref];\
         [dis][ref]libvmaf=shortest=true:ts_sync_mode=nearest:n_threads=5:n_subsample=4"
    );
}

/// 4k videos should use 4k model
#[test]
fn vmaf_lavfi_4k() {
    let vmaf = Vmaf {
        vmaf_args: vec!["n_threads=5".to_string(), "n_subsample=4".to_string()],
        ..Default::default()
    };
    assert_eq!(
        vmaf.ffmpeg_lavfi(Some((3840, 2160)), Some(PixelFormat::Yuv420p), None, 1),
        "[0:v]format=yuv420p,setpts=PTS-STARTPTS,settb=AVTB[dis];\
         [1:v]format=yuv420p,setpts=PTS-STARTPTS,settb=AVTB[ref];\
         [dis][ref]libvmaf=shortest=true:ts_sync_mode=nearest:n_threads=5:n_subsample=4:model=version=vmaf_4k_v0.6.1"
    );
}

/// >2k videos should be upscaled to 4k & use 4k model
#[test]
fn vmaf_lavfi_3k_upscale_to_4k() {
    let vmaf = Vmaf {
        vmaf_args: vec!["n_threads=5".to_string()],
        ..Default::default()
    };
    assert_eq!(
        vmaf.ffmpeg_lavfi(Some((3008, 1692)), Some(PixelFormat::Yuv420p), None, 1),
        "[0:v]format=yuv420p,scale=3840:-1:flags=bicubic,setpts=PTS-STARTPTS,settb=AVTB[dis];\
         [1:v]format=yuv420p,scale=3840:-1:flags=bicubic,setpts=PTS-STARTPTS,settb=AVTB[ref];\
         [dis][ref]libvmaf=shortest=true:ts_sync_mode=nearest:n_threads=5:model=version=vmaf_4k_v0.6.1"
    );
}

/// If user has overridden the model, don't default a vmaf width
#[test]
fn vmaf_lavfi_small_width_custom_model() {
    let vmaf = Vmaf {
        vmaf_args: vec![
            "model=version=foo".to_string(),
            "n_threads=5".to_string(),
            "n_subsample=4".to_string(),
        ],
        ..Default::default()
    };
    assert_eq!(
        vmaf.ffmpeg_lavfi(Some((1280, 720)), Some(PixelFormat::Yuv420p), None, 1),
        "[0:v]format=yuv420p,setpts=PTS-STARTPTS,settb=AVTB[dis];\
         [1:v]format=yuv420p,setpts=PTS-STARTPTS,settb=AVTB[ref];\
         [dis][ref]libvmaf=shortest=true:ts_sync_mode=nearest:model=version=foo:n_threads=5:n_subsample=4"
    );
}

#[test]
fn vmaf_lavfi_custom_model_and_width() {
    let vmaf = Vmaf {
        vmaf_args: vec![
            "model=version=foo".to_string(),
            "n_threads=5".to_string(),
            "n_subsample=4".to_string(),
        ],
        // if specified just do it
        vmaf_scale: VmafScale::Custom {
            width: 123,
            height: 720,
        },
    };
    assert_eq!(
        vmaf.ffmpeg_lavfi(Some((1280, 720)), Some(PixelFormat::Yuv420p), None, 1),
        "[0:v]format=yuv420p,scale=123:-1:flags=bicubic,setpts=PTS-STARTPTS,settb=AVTB[dis];\
         [1:v]format=yuv420p,scale=123:-1:flags=bicubic,setpts=PTS-STARTPTS,settb=AVTB[ref];\
         [dis][ref]libvmaf=shortest=true:ts_sync_mode=nearest:model=version=foo:n_threads=5:n_subsample=4"
    );
}

#[test]
fn vmaf_lavfi_1080p() {
    let vmaf = Vmaf {
        vmaf_args: vec!["n_threads=5".to_string(), "n_subsample=4".to_string()],
        ..Default::default()
    };
    assert_eq!(
        vmaf.ffmpeg_lavfi(Some((1920, 1080)), Some(PixelFormat::Yuv420p), None, 1),
        "[0:v]format=yuv420p,setpts=PTS-STARTPTS,settb=AVTB[dis];\
         [1:v]format=yuv420p,setpts=PTS-STARTPTS,settb=AVTB[ref];\
         [dis][ref]libvmaf=shortest=true:ts_sync_mode=nearest:n_threads=5:n_subsample=4"
    );
}

#[test]
fn vmaf_scale_parsing() {
    assert_eq!(parse_vmaf_scale("none"), Ok(VmafScale::Disabled));
    assert_eq!(parse_vmaf_scale("auto"), Ok(VmafScale::Auto));
    assert_eq!(
        parse_vmaf_scale("1920x1080"),
        Ok(VmafScale::Custom {
            width: 1920,
            height: 1080,
        })
    );
    let err = parse_vmaf_scale("1920by1080").unwrap_err();
    assert_eq!(
        err.message(),
        "vmaf-scale must be 'none', 'auto' or WxH format e.g. '1920x1080'"
    );
    assert!(parse_vmaf_scale("x1080").is_err());
    assert!(parse_vmaf_scale("1920x").is_err());
}

#[test]
fn vmaf_model_inference() {
    let none: Vec<String> = vec!["n_threads=5".to_string()];
    assert_eq!(VmafModel::from_args(&none), None);
    let one_1k = vec!["model=version=vmaf_v0.6.1".to_string()];
    assert_eq!(VmafModel::from_args(&one_1k), Some(VmafModel::Vmaf1K));
    let one_4k = vec!["model=version=vmaf_4k_v0.6.1".to_string()];
    assert_eq!(VmafModel::from_args(&one_4k), Some(VmafModel::Vmaf4K));
    let custom = vec!["model=version=foo".to_string()];
    assert_eq!(VmafModel::from_args(&custom), Some(VmafModel::Custom));
    let two = vec![
        "model=version=vmaf_v0.6.1".to_string(),
        "model=version=vmaf_4k_v0.6.1".to_string(),
    ];
    assert_eq!(VmafModel::from_args(&two), Some(VmafModel::Custom));
}

#[test]
fn minimal_scaling_picks_smaller_factor() {
    // wider than tall relative to target: fix the width
    assert_eq!(minimally_scale((1280, 720), (1920, 1080)), (1920, -1));
    // taller than wide relative to target: fix the height
    assert_eq!(minimally_scale((1280, 1280), (1920, 1080)), (-1, 1080));
    // unknown resolution goes through vf_scale's custom literal path,
    // but the minimal rule itself also covers exact fits
    assert_eq!(minimally_scale((1920, 1080), (1920, 1080)), (1920, -1));
}
