//! Encoder families: a closed set of variants selected from the raw
//! encoder identifier, each carrying its fixed defaults.

use vstd::prelude::*;

use crate::pixel_format::PixelFormat;
use crate::strutil::{push_string, seq_ends_with, str_ends_with, str_eq};
use vstd::string::StringExecFns;

verus! {

/// The family an encoder identifier falls in. The default family is the
/// svt encoder; the others are selected by name or suffix.
#[derive(Debug, Clone, Copy, PartialEq, Eq, Structural, Hash)]
pub enum EncoderKind {
    /// The default family: the svt encoder, carrying the codec-specific
    /// parameter string.
    SvtAv1,
    /// The aom encoder, run in constant-quality mode.
    Aom,
    /// The vp9 encoder, run in constant-quality mode.
    Vp9,
    /// The rav1e encoder, preferring ten-bit output.
    Rav1e,
    Vaapi,
    Vulkan,
    Cuvid,
    Qsv,
    Other,
}

/// The family an encoder identifier selects.
pub open spec fn spec_encoder_kind(name: Seq<char>) -> EncoderKind {
    if name == "libsvtav1"@ {
        EncoderKind::SvtAv1
    } else if name == "libaom-av1"@ {
        EncoderKind::Aom
    } else if name == "libvpx-vp9"@ {
        EncoderKind::Vp9
    } else if name == "librav1e"@ {
        EncoderKind::Rav1e
    } else if seq_ends_with(name, "_vaapi"@) {
        EncoderKind::Vaapi
    } else if seq_ends_with(name, "_vulkan"@) {
        EncoderKind::Vulkan
    } else if seq_ends_with(name, "_cuvid"@) {
        EncoderKind::Cuvid
    } else if seq_ends_with(name, "_qsv"@) {
        EncoderKind::Qsv
    } else {
        EncoderKind::Other
    }
}

/// The target encoder, identified by the name the external tool knows it
/// under.
#[derive(Debug, Clone, PartialEq, Eq)]
pub struct Encoder {
    /// The raw encoder identifier, e.g. `libsvtav1`.
    pub name: String,
}

/// The fixed default output arguments of a family, as (flag, value)
/// pairs laid out flat: the constant-quality bitrate for the aom and vp9
/// encoders, the lookahead settings for the qsv family.
pub open spec fn spec_default_output_args(kind: EncoderKind) -> Seq<Seq<char>> {
    match kind {
        EncoderKind::Aom => seq!["-b:v"@, "0"@],
        EncoderKind::Vp9 => seq!["-b:v"@, "0"@],
        EncoderKind::Qsv => seq![
            "-look_ahead"@,
            "1"@,
            "-extbrc"@,
            "1"@,
            "-look_ahead_depth"@,
            "40"@,
        ],
        _ => Seq::empty(),
    }
}

/// The fixed default input arguments of a family, as (flag, value) pairs
/// laid out flat.
pub open spec fn spec_default_input_args(kind: EncoderKind) -> Seq<Seq<char>> {
    match kind {
        EncoderKind::Vaapi => seq!["-hwaccel"@, "vaapi"@, "-hwaccel_output_format"@, "vaapi"@],
        EncoderKind::Vulkan => seq!["-hwaccel"@, "vulkan"@, "-hwaccel_output_format"@, "vulkan"@],
        EncoderKind::Cuvid => seq!["-hwaccel"@, "cuda"@, "-hwaccel_output_format"@, "cuda"@],
        _ => Seq::empty(),
    }
}

/// The identifier with its alias resolved: `svt-av1` names the same
/// encoder as `libsvtav1`.
pub open spec fn spec_normalize_encoder_name(name: Seq<char>) -> Seq<char> {
    if name == "svt-av1"@ {
        "libsvtav1"@
    } else {
        name
    }
}

impl Encoder {
    /// Wrap a raw encoder identifier, resolving the `svt-av1` alias to
    /// the name the external tool knows.
    pub fn new(name: String) -> (r: Encoder)
        ensures
            r.name@ == spec_normalize_encoder_name(name@),
    {
        if str_eq(name.as_str(), "svt-av1") {
            Encoder { name: String::from_str("libsvtav1") }
        } else {
            Encoder { name }
        }
    }

    /// The family the identifier selects.
    pub fn kind(&self) -> (r: EncoderKind)
        ensures
            r == spec_encoder_kind(self.name@),
    {
        let n = self.name.as_str();
        if str_eq(n, "libsvtav1") {
            EncoderKind::SvtAv1
        } else if str_eq(n, "libaom-av1") {
            EncoderKind::Aom
        } else if str_eq(n, "libvpx-vp9") {
            EncoderKind::Vp9
        } else if str_eq(n, "librav1e") {
            EncoderKind::Rav1e
        } else if str_ends_with(n, "_vaapi") {
            EncoderKind::Vaapi
        } else if str_ends_with(n, "_vulkan") {
            EncoderKind::Vulkan
        } else if str_ends_with(n, "_cuvid") {
            EncoderKind::Cuvid
        } else if str_ends_with(n, "_qsv") {
            EncoderKind::Qsv
        } else {
            EncoderKind::Other
        }
    }

    /// Whether the encoder is the default family, which owns the
    /// codec-specific parameter string.
    pub fn is_svt(&self) -> (r: bool)
        ensures
            r == (spec_encoder_kind(self.name@) == EncoderKind::SvtAv1),
    {
        match self.kind() {
            EncoderKind::SvtAv1 => true,
            _ => false,
        }
    }

    /// The preset used when the user sets none: the default family has a
    /// fixed default, others leave the preset unset.
    pub fn default_preset(&self) -> (r: Option<&'static str>)
        ensures
            match r {
                Some(p) => spec_encoder_kind(self.name@) == EncoderKind::SvtAv1 && p@ == "8"@,
                None => spec_encoder_kind(self.name@) != EncoderKind::SvtAv1,
            },
    {
        if self.is_svt() {
            Some("8")
        } else {
            None
        }
    }

    /// Whether the family prefers ten-bit output when the user fixes no
    /// pixel format.
    pub fn prefers_10bit(&self) -> (r: bool)
        ensures
            r == (spec_encoder_kind(self.name@) == EncoderKind::SvtAv1 || spec_encoder_kind(
                self.name@,
            ) == EncoderKind::Aom || spec_encoder_kind(self.name@) == EncoderKind::Rav1e),
    {
        match self.kind() {
            EncoderKind::SvtAv1 => true,
            EncoderKind::Aom => true,
            EncoderKind::Rav1e => true,
            _ => false,
        }
    }

    /// The family's fixed default output arguments, as (flag, value)
    /// pairs laid out flat.
    pub fn default_output_args(&self) -> (r: Vec<String>)
        ensures
            r.deep_view() == spec_default_output_args(spec_encoder_kind(self.name@)),
    {
        let mut out: Vec<String> = Vec::new();
        match self.kind() {
            EncoderKind::Aom => {
                push_string(&mut out, String::from_str("-b:v"));
                push_string(&mut out, String::from_str("0"));
                proof {
                    assert(out.deep_view() =~= seq!["-b:v"@, "0"@]);
                }
            },
            EncoderKind::Vp9 => {
                push_string(&mut out, String::from_str("-b:v"));
                push_string(&mut out, String::from_str("0"));
                proof {
                    assert(out.deep_view() =~= seq!["-b:v"@, "0"@]);
                }
            },
            EncoderKind::Qsv => {
                push_string(&mut out, String::from_str("-look_ahead"));
                push_string(&mut out, String::from_str("1"));
                push_string(&mut out, String::from_str("-extbrc"));
                push_string(&mut out, String::from_str("1"));
                push_string(&mut out, String::from_str("-look_ahead_depth"));
                push_string(&mut out, String::from_str("40"));
                proof {
                    assert(out.deep_view() =~= seq![
                        "-look_ahead"@,
                        "1"@,
                        "-extbrc"@,
                        "1"@,
                        "-look_ahead_depth"@,
                        "40"@,
                    ]);
                }
            },
            _ => {
                proof {
                    assert(out.deep_view() =~= Seq::<Seq<char>>::empty());
                }
            },
        }
        out
    }

    /// The family's fixed default input arguments, as (flag, value)
    /// pairs laid out flat: the hardware-acceleration pairs of the
    /// hardware families.
    pub fn default_input_args(&self) -> (r: Vec<String>)
        ensures
            r.deep_view() == spec_default_input_args(spec_encoder_kind(self.name@)),
    {
        let mut out: Vec<String> = Vec::new();
        match self.kind() {
            EncoderKind::Vaapi => {
                push_string(&mut out, String::from_str("-hwaccel"));
                push_string(&mut out, String::from_str("vaapi"));
                push_string(&mut out, String::from_str("-hwaccel_output_format"));
                push_string(&mut out, String::from_str("vaapi"));
                proof {
                    assert(out.deep_view() =~= seq![
                        "-hwaccel"@,
                        "vaapi"@,
                        "-hwaccel_output_format"@,
                        "vaapi"@,
                    ]);
                }
            },
            EncoderKind::Vulkan => {
                push_string(&mut out, String::from_str("-hwaccel"));
                push_string(&mut out, String::from_str("vulkan"));
                push_string(&mut out, String::from_str("-hwaccel_output_format"));
                push_string(&mut out, String::from_str("vulkan"));
                proof {
                    assert(out.deep_view() =~= seq![
                        "-hwaccel"@,
                        "vulkan"@,
                        "-hwaccel_output_format"@,
                        "vulkan"@,
                    ]);
                }
            },
            EncoderKind::Cuvid => {
                push_string(&mut out, String::from_str("-hwaccel"));
                push_string(&mut out, String::from_str("cuda"));
                push_string(&mut out, String::from_str("-hwaccel_output_format"));
                push_string(&mut out, String::from_str("cuda"));
                proof {
                    assert(out.deep_view() =~= seq![
                        "-hwaccel"@,
                        "cuda"@,
                        "-hwaccel_output_format"@,
                        "cuda"@,
                    ]);
                }
            },
            _ => {
                proof {
                    assert(out.deep_view() =~= Seq::<Seq<char>>::empty());
                }
            },
        }
        out
    }

    /// The default pixel format the family asks for when the user fixes
    /// none and no hardware decoder is active.
    pub fn default_pix_format(&self) -> (r: Option<PixelFormat>)
        ensures
            r == if spec_encoder_kind(self.name@) == EncoderKind::SvtAv1 || spec_encoder_kind(
                self.name@,
            ) == EncoderKind::Aom || spec_encoder_kind(self.name@) == EncoderKind::Rav1e {
                Some(PixelFormat::Yuv420p10le)
            } else {
                Option::<PixelFormat>::None
            },
    {
        if self.prefers_10bit() {
            Some(PixelFormat::Yuv420p10le)
        } else {
            None
        }
    }

    /// The step between quality values tried by a search, in tenths of a
    /// quality unit: a tenth for the fine-grained encoders, a whole unit
    /// otherwise.
    pub fn default_crf_increment_tenths(&self) -> (r: u32)
        ensures
            r == if self.name@ == "libx264"@ || self.name@ == "libx265"@ {
                1int
            } else {
                10int
            },
    {
        let n = self.name.as_str();
        if str_eq(n, "libx264") || str_eq(n, "libx265") {
            1
        } else {
            10
        }
    }

    /// The largest quality value a search may hand the encoder, in
    /// tenths of a quality unit.
    pub fn max_crf_tenths(&self) -> (r: u32)
        ensures
            r == if self.name@ == "libx264"@ || self.name@ == "libx265"@ {
                460int
            } else if self.name@ == "librav1e"@ || self.name@ == "av1_vaapi"@ {
                2550int
            } else if self.name@ == "mpeg2video"@ {
                300int
            } else {
                550int
            },
    {
        let n = self.name.as_str();
        if str_eq(n, "libx264") || str_eq(n, "libx265") {
            460
        } else if str_eq(n, "librav1e") || str_eq(n, "av1_vaapi") {
            2550
        } else if str_eq(n, "mpeg2video") {
            300
        } else {
            550
        }
    }

    /// The smallest quality value a search may hand the encoder, in
    /// tenths of a quality unit.
    pub fn min_crf_tenths(&self) -> (r: u32)
        ensures
            r == if self.name@ == "mpeg2video"@ {
                20int
            } else {
                100int
            },
    {
        if str_eq(self.name.as_str(), "mpeg2video") {
            20
        } else {
            100
        }
    }

    /// The image container extension fitting the encoder's output.
    pub fn default_image_ext(&self) -> (r: &'static str)
        ensures
            r@ == if self.name@ == "libx264"@ {
                "264"@
            } else if self.name@ == "libx265"@ {
                "265"@
            } else {
                "avif"@
            },
    {
        let n = self.name.as_str();
        if str_eq(n, "libx264") {
            "264"
        } else if str_eq(n, "libx265") {
            "265"
        } else {
            "avif"
        }
    }
}

} // verus!
