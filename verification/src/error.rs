//! Validation failures of the encode argument resolver.

use vstd::prelude::*;

use crate::strutil::{dec_str, join_sep, join_comma, u32_to_string};
use vstd::string::StringExecFns;

verus! {

/// A reason the resolver refuses a configuration. Every failure is
/// detected before any external invocation would be attempted.
#[derive(Clone, Debug, PartialEq, Eq)]
pub enum EncodeError {
    /// A hardware decoder was requested but no decoder listing was given,
    /// so availability cannot be confirmed.
    DecoderListUnavailable { requested: String },
    /// The requested hardware decoder is not among the available ones.
    UnavailableDecoder { requested: String, available: Vec<String> },
    /// The configured surface count lies outside the supported range.
    InvalidSurfaceCount { given: u32 },
    /// Encoder-specific extra arguments were given for another encoder.
    WrongEncoderForSvtArgs { encoder: String },
    /// The codec parameter string was set through the generic argument
    /// channel instead of the dedicated option.
    SvtParamsViaGenericArgs,
    /// A duration-based keyframe interval was requested but no frame rate
    /// is resolvable.
    UnresolvableFrameRate,
    /// The resolved keyframe interval does not fit a machine word.
    FrameCountTooLarge,
    /// A reserved flag appeared among the output arguments.
    ReservedOutputArg { flag: String },
    /// A reserved flag appeared among the input arguments.
    ReservedInputArg { flag: String },
}

/// The remedy named alongside a reserved flag, where one exists.
pub open spec fn spec_reserved_hint(flag: Seq<char>) -> Seq<char> {
    if flag == "-i"@ || flag == "-y"@ || flag == "-n"@ {
        " (the resolver controls it)"@
    } else if flag == "-pix_fmt"@ {
        " (use the dedicated pixel-format option)"@
    } else if flag == "-crf"@ {
        " (use the dedicated quality option)"@
    } else if flag == "-preset"@ {
        " (use the dedicated preset option)"@
    } else if flag == "-vf"@ || flag == "-filter:v"@ {
        " (use the dedicated video-filter option)"@
    } else if flag == "-c:v"@ || flag == "-c:v:0"@ || flag == "-codec:v"@ || flag == "-codec:v:0"@
        || flag == "-vcodec"@ {
        " (use the dedicated encoder option)"@
    } else if flag == "-c:a"@ || flag == "-codec:a"@ || flag == "-acodec"@ {
        " (audio handling is not configured here)"@
    } else {
        Seq::empty()
    }
}

/// The remedy named alongside a reserved flag, where one exists.
fn reserved_hint(flag: &str) -> (r: &'static str)
    ensures
        r@ == spec_reserved_hint(flag@),
{
    proof {
        reveal_strlit("");
    }
    if crate::strutil::str_eq(flag, "-i") || crate::strutil::str_eq(flag, "-y")
        || crate::strutil::str_eq(flag, "-n") {
        " (the resolver controls it)"
    } else if crate::strutil::str_eq(flag, "-pix_fmt") {
        " (use the dedicated pixel-format option)"
    } else if crate::strutil::str_eq(flag, "-crf") {
        " (use the dedicated quality option)"
    } else if crate::strutil::str_eq(flag, "-preset") {
        " (use the dedicated preset option)"
    } else if crate::strutil::str_eq(flag, "-vf") || crate::strutil::str_eq(flag, "-filter:v") {
        " (use the dedicated video-filter option)"
    } else if crate::strutil::str_eq(flag, "-c:v") || crate::strutil::str_eq(flag, "-c:v:0")
        || crate::strutil::str_eq(flag, "-codec:v") || crate::strutil::str_eq(flag, "-codec:v:0")
        || crate::strutil::str_eq(flag, "-vcodec") {
        " (use the dedicated encoder option)"
    } else if crate::strutil::str_eq(flag, "-c:a") || crate::strutil::str_eq(flag, "-codec:a")
        || crate::strutil::str_eq(flag, "-acodec") {
        " (audio handling is not configured here)"
    } else {
        ""
    }
}

/// The text of each failure, naming the offending value and, where a
/// remedy exists, the option to use instead.
pub open spec fn spec_message(e: EncodeError) -> Seq<char> {
    match e {
        EncodeError::DecoderListUnavailable { requested } => "decoder listing unavailable, cannot confirm decoder "@
            + requested@,
        EncodeError::UnavailableDecoder { requested, available } => "unavailable decoder "@
            + requested@ + ", available: "@ + join_sep(available.deep_view(), ','),
        EncodeError::InvalidSurfaceCount { given } => "invalid surface count "@ + dec_str(
            given as nat,
        ) + ", expected 8 to 32"@,
        EncodeError::WrongEncoderForSvtArgs { encoder } => "svt options are not valid for encoder "@
            + encoder@,
        EncodeError::SvtParamsViaGenericArgs => "set svtav1-params with the dedicated svt option, not a generic argument"@,
        EncodeError::UnresolvableFrameRate => "a duration keyframe interval needs a resolvable frame rate"@,
        EncodeError::FrameCountTooLarge => "keyframe interval frame count is too large"@,
        EncodeError::ReservedOutputArg { flag } => "reserved output arg "@ + flag@
            + spec_reserved_hint(flag@),
        EncodeError::ReservedInputArg { flag } => "reserved input arg "@ + flag@
            + spec_reserved_hint(flag@),
    }
}

impl EncodeError {
    /// Render the failure for reporting.
    pub fn message(&self) -> (r: String)
        ensures
            r@ == spec_message(*self),
    {
        match self {
            EncodeError::DecoderListUnavailable { requested } => {
                let mut m = String::from_str("decoder listing unavailable, cannot confirm decoder ");
                m.append(requested.as_str());
                m
            },
            EncodeError::UnavailableDecoder { requested, available } => {
                let mut m = String::from_str("unavailable decoder ");
                m.append(requested.as_str());
                m.append(", available: ");
                let joined = join_comma(available);
                m.append(joined.as_str());
                m
            },
            EncodeError::InvalidSurfaceCount { given } => {
                let mut m = String::from_str("invalid surface count ");
                let n = u32_to_string(*given);
                m.append(n.as_str());
                m.append(", expected 8 to 32");
                m
            },
            EncodeError::WrongEncoderForSvtArgs { encoder } => {
                let mut m = String::from_str("svt options are not valid for encoder ");
                m.append(encoder.as_str());
                m
            },
            EncodeError::SvtParamsViaGenericArgs => String::from_str(
                "set svtav1-params with the dedicated svt option, not a generic argument",
            ),
            EncodeError::UnresolvableFrameRate => String::from_str(
                "a duration keyframe interval needs a resolvable frame rate",
            ),
            EncodeError::FrameCountTooLarge => String::from_str(
                "keyframe interval frame count is too large",
            ),
            EncodeError::ReservedOutputArg { flag } => {
                let mut m = String::from_str("reserved output arg ");
                m.append(flag.as_str());
                m.append(reserved_hint(flag.as_str()));
                m
            },
            EncodeError::ReservedInputArg { flag } => {
                let mut m = String::from_str("reserved input arg ");
                m.append(flag.as_str());
                m.append(reserved_hint(flag.as_str()));
                m
            },
        }
    }
}

} // verus!
