use encargs::strutil::{
    find_char, join_colon, parse_u32, parse_u64, split_char, str_contains, str_ends_with, str_eq,
    str_starts_with, trim_spaces, u64_to_string,
};

#[test]
fn equality_and_search() {
    assert!(str_eq("abc", "abc"));
    assert!(!str_eq("abc", "abd"));
    assert!(!str_eq("abc", "ab"));
    assert!(str_contains("libvmaf=shortest", "vmaf"));
    assert!(!str_contains("libvmaf", "model"));
    assert!(str_contains("anything", ""));
    assert!(str_starts_with("fps=24", "fps="));
    assert!(!str_starts_with("x fps=24", "fps="));
    assert!(str_ends_with("model=version=vmaf_4k_v0.6.1", "version=vmaf_4k_v0.6.1"));
    assert_eq!(find_char("a=b=c", '='), Some(1));
    assert_eq!(find_char("abc", '='), None);
}

#[test]
fn numbers_round_trip() {
    assert_eq!(u64_to_string(0), "0");
    assert_eq!(u64_to_string(240), "240");
    assert_eq!(u64_to_string(18446744073709551615), "18446744073709551615");
    assert_eq!(parse_u64("240"), Some(240));
    assert_eq!(parse_u64("18446744073709551615"), Some(18446744073709551615));
    assert_eq!(parse_u64("18446744073709551616"), None);
    assert_eq!(parse_u64(""), None);
    assert_eq!(parse_u64("12a"), None);
    assert_eq!(parse_u32("4294967295"), Some(4294967295));
    assert_eq!(parse_u32("4294967296"), None);
}

#[test]
fn splitting_and_joining() {
    assert_eq!(split_char("a,b,,c", ','), vec!["a", "b", "", "c"]);
    assert_eq!(split_char("abc", ','), vec!["abc"]);
    assert_eq!(
        join_colon(&vec!["scd=1".to_string(), "rc=1".to_string()]),
        "scd=1:rc=1"
    );
    assert_eq!(join_colon(&Vec::new()), "");
    assert_eq!(trim_spaces("  fps=24  "), "fps=24");
    assert_eq!(trim_spaces("fps=24"), "fps=24");
}
