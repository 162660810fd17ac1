use encargs::auto_hw_decoder::{
    auto_select_decoder, decoder_available, parse_crop_detect, parse_cuda_decoders,
};

#[test]
fn auto_decoder_selection() {
    assert_eq!(auto_select_decoder("h264"), Some("h264_cuvid".to_string()));
    assert_eq!(auto_select_decoder("hevc"), Some("hevc_cuvid".to_string()));
    assert_eq!(auto_select_decoder("vp9"), Some("vp9_cuvid".to_string()));
    assert_eq!(auto_select_decoder("av1"), None);
    assert_eq!(auto_select_decoder(""), None);
}

#[test]
fn decoder_listing_is_parsed() {
    let listing = "Decoders:\n\
                   V..... h264                 H.264\n\
                   V..... h264_cuvid           Nvidia CUVID H264 decoder (codec h264)\n\
                   V..... hevc_cuvid           Nvidia CUVID HEVC decoder (codec hevc)\n\
                   A..... aac                  AAC";
    let decoders = parse_cuda_decoders(listing);
    assert_eq!(
        decoders,
        vec!["h264_cuvid".to_string(), "hevc_cuvid".to_string()]
    );
    assert!(decoder_available(&decoders, "h264_cuvid"));
    assert!(!decoder_available(&decoders, "vp9_cuvid"));
}

#[test]
fn decoder_listing_splits_on_tabs_too() {
    let listing = "V.....\tvp9_cuvid\tNvidia CUVID VP9 decoder\n\
                   V..... \t av1_cuvid   mixed whitespace";
    assert_eq!(
        parse_cuda_decoders(listing),
        vec!["vp9_cuvid".to_string(), "av1_cuvid".to_string()]
    );
}

#[test]
fn crop_detection_takes_the_last_line() {
    let diag = "[Parsed_cropdetect] x1:0 x2:1919 crop=1920:800:0:140\n\
                noise\n\
                [Parsed_cropdetect] x1:0 x2:1919 crop=1920:816:0:132";
    assert_eq!(parse_crop_detect(diag), Some("crop=1920:816:0:132".to_string()));
    assert_eq!(parse_crop_detect("no crops here"), None);
    assert_eq!(parse_crop_detect(""), None);
}
