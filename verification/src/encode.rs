//! The encode argument resolver: combining an encode configuration, a
//! probe result and a target quality value into a validated, codec-aware
//! argument set for one encode attempt.

use vstd::prelude::*;

use crate::auto_hw_decoder::{auto_select_decoder, decoder_available, spec_auto_decoder};
use crate::cuda_scaling_method::{apply_cuda_scaling_method, spec_cuda_scale};
use crate::encoder::{spec_default_input_args, spec_default_output_args, spec_encoder_kind, Encoder, EncoderKind};
use crate::error::EncodeError;
use crate::fps::{spec_vfilter_fps, try_parse_fps_vfilter, Fps};
use crate::keyint::{spec_duration_frames, KeyInterval};
use crate::pixel_format::PixelFormat;
use crate::probe::Probe;
use crate::strutil::{
    clone_string_vec, dec_str, join_colon, join_comma, join_sep, lemma_first_occurrence,
    lemma_no_occurrence, push_string, spec_find, split_once_char, str_eq, u32_to_string,
    u64_to_string,
};
use vstd::string::StringExecFns;

verus! {

/// A crop rectangle detected on the input: lines to cut from each edge.
#[derive(Debug, Clone, Copy, PartialEq, Eq, Structural)]
pub struct Crop {
    pub top: u32,
    pub bottom: u32,
    pub left: u32,
    pub right: u32,
}

/// One encode attempt's configuration, as the user gave it.
#[derive(Debug, Clone, PartialEq)]
pub struct Encode {
    /// The target encoder.
    pub encoder: Encoder,
    /// The input path.
    pub input: String,
    /// The user's video-filter expression.
    pub vfilter: Option<String>,
    /// Explicit preset; wins over the encoder's default.
    pub preset: Option<String>,
    /// Explicit pixel format; wins over the encoder's default.
    pub pix_format: Option<PixelFormat>,
    /// Explicit keyframe interval.
    pub keyint: Option<KeyInterval>,
    /// Explicit scene-change-detection request.
    pub scd: Option<bool>,
    /// Extra arguments owned by the default (svt) encoder family.
    pub svt_args: Vec<String>,
    /// Generic output arguments, in `name=value` or passthrough form.
    pub enc_args: Vec<String>,
    /// Generic input arguments, in `name=value` or passthrough form.
    pub enc_input_args: Vec<String>,
    /// An explicitly requested hardware decoder.
    pub cuda_decoder: Option<String>,
    /// Names of filters to run on the hardware device.
    pub cuda_filters: Vec<String>,
    /// Interpolation method of the hardware scale filter.
    pub cuda_scaling_method: Option<String>,
    /// Decoder surface count; valid range 8 to 32, default 16.
    pub cuda_surfaces: u32,
    /// Select a hardware decoder automatically from the detected codec.
    pub auto_hw_decoder: bool,
    /// The input codec an earlier probe detected.
    pub detected_input_codec: Option<String>,
    /// The crop rectangle an earlier detection pass found.
    pub detected_crop: Option<Crop>,
}

/// A fully resolved, validated argument set for one encode attempt.
#[derive(Debug, Clone, PartialEq)]
pub struct FfmpegEncodeArgs {
    /// The input path, handed over unchanged.
    pub input: String,
    /// The encoder identifier.
    pub vcodec: String,
    /// The resolved pixel format, if any is to be fixed.
    pub pix_fmt: Option<PixelFormat>,
    /// The resolved video-filter expression, if any.
    pub vfilter: Option<String>,
    /// The target quality value, in tenths of a quality unit.
    pub crf_tenths: u32,
    /// The resolved preset, if any.
    pub preset: Option<String>,
    /// Output arguments: user arguments first, derived defaults after.
    pub output_args: Vec<String>,
    /// Input arguments: user arguments first, hardware pipeline and
    /// defaults after.
    pub input_args: Vec<String>,
    /// Audio is intentionally excluded; never set by this resolver.
    pub video_only: bool,
}

/// The characters of an optional string.
pub open spec fn opt_chars(o: Option<String>) -> Option<Seq<char>> {
    match o {
        Some(s) => Some(s@),
        None => None,
    }
}

// ---------------------------------------------------------------------
// `name=value` flattening
// ---------------------------------------------------------------------

/// The argument has `name=value` form and names the codec-specific
/// parameter key, which belongs to the dedicated channel.
pub open spec fn is_params_arg(a: Seq<char>) -> bool {
    spec_find(a, '=') >= 0 && a.subrange(0, spec_find(a, '=')) == "svtav1-params"@
}

/// Some argument names the codec-specific parameter key.
pub open spec fn spec_any_params_arg(args: Seq<Seq<char>>) -> bool {
    exists|i: int| 0 <= i < args.len() && is_params_arg(#[trigger] args[i])
}

/// The tokens one argument flattens to: `name=value` becomes the flag
/// `-name` and the value; anything else passes through unchanged.
pub open spec fn spec_flat_one(a: Seq<char>) -> Seq<Seq<char>> {
    if spec_find(a, '=') >= 0 {
        let i = spec_find(a, '=');
        seq!["-"@ + a.subrange(0, i), a.subrange(i + 1, a.len() as int)]
    } else {
        seq![a]
    }
}

/// All arguments flattened, in order.
pub open spec fn spec_flatten(args: Seq<Seq<char>>) -> Seq<Seq<char>>
    decreases args.len(),
{
    if args.len() == 0 {
        Seq::empty()
    } else {
        spec_flatten(args.drop_last()) + spec_flat_one(args.last())
    }
}

/// Flatten `name=value` arguments into flag-and-value token pairs,
/// refusing the codec-specific parameter key (it belongs to the
/// dedicated channel).
fn flatten_args(args: &Vec<String>) -> (r: Result<Vec<String>, EncodeError>)
    ensures
        match r {
            Ok(v) => !spec_any_params_arg(args.deep_view()) && v.deep_view() == spec_flatten(
                args.deep_view(),
            ),
            Err(e) => spec_any_params_arg(args.deep_view()) && e matches
                EncodeError::SvtParamsViaGenericArgs,
        },
{
    let ghost dv = args.deep_view();
    let mut out: Vec<String> = Vec::new();
    let mut i: usize = 0;
    while i < args.len()
        invariant
            dv == args.deep_view(),
            dv.len() == args.len(),
            i <= args.len(),
            out.deep_view() == spec_flatten(dv.subrange(0, i as int)),
            forall|j: int| 0 <= j < i ==> !is_params_arg(#[trigger] dv[j]),
        decreases args.len() - i,
    {
        proof {
            assert(args@[i as int]@ == dv[i as int]);
            assert(dv.subrange(0, i + 1).drop_last() =~= dv.subrange(0, i as int));
            assert(dv.subrange(0, i + 1).last() == dv[i as int]);
        }
        let a = args[i].as_str();
        match split_once_char(a, '=') {
            Some((name, value)) => {
                proof {
                    let w = choose|w: int|
                        0 <= w < a@.len() && a@[w] == '=' && (forall|j: int|
                            0 <= j < w ==> a@[j] != '=') && name@ == a@.subrange(0, w) && value@
                            == a@.subrange(w + 1, a@.len() as int);
                    lemma_first_occurrence(a@, '=', w);
                }
                if str_eq(name, "svtav1-params") {
                    return Err(EncodeError::SvtParamsViaGenericArgs);
                }
                let mut flag = String::from_str("-");
                flag.append(name);
                push_string(&mut out, flag);
                push_string(&mut out, String::from_str(value));
                proof {
                    assert(out.deep_view() =~= spec_flatten(dv.subrange(0, i as int))
                        + spec_flat_one(dv[i as int]));
                }
            },
            None => {
                proof {
                    lemma_no_occurrence(a@, '=');
                }
                push_string(&mut out, args[i].clone());
                proof {
                    assert(out.deep_view() =~= spec_flatten(dv.subrange(0, i as int))
                        + spec_flat_one(dv[i as int]));
                }
            },
        }
        i += 1;
    }
    proof {
        assert(dv.subrange(0, dv.len() as int) =~= dv);
    }
    Ok(out)
}

// ---------------------------------------------------------------------
// flag presence and defaults
// ---------------------------------------------------------------------

/// `flag` stands, as a whole token, among `args`.
pub open spec fn spec_has_flag(args: Seq<Seq<char>>, flag: Seq<char>) -> bool {
    exists|i: int| 0 <= i < args.len() && #[trigger] args[i] == flag
}

/// Whether `flag` stands, as a whole token, among `args`.
fn has_flag(args: &Vec<String>, flag: &str) -> (r: bool)
    ensures
        r == spec_has_flag(args.deep_view(), flag@),
{
    let ghost dv = args.deep_view();
    let mut i: usize = 0;
    while i < args.len()
        invariant
            dv == args.deep_view(),
            dv.len() == args.len(),
            i <= args.len(),
            forall|j: int| 0 <= j < i ==> #[trigger] dv[j] != flag@,
        decreases args.len() - i,
    {
        proof {
            assert(args@[i as int]@ == dv[i as int]);
        }
        if str_eq(args[i].as_str(), flag) {
            return true;
        }
        i += 1;
    }
    false
}

/// `args` extended by each (flag, value) pair of `defaults` whose flag
/// is not already present. `defaults` lays the pairs out flat.
pub open spec fn spec_append_defaults(args: Seq<Seq<char>>, defaults: Seq<Seq<char>>) -> Seq<
    Seq<char>,
>
    decreases defaults.len(),
{
    if defaults.len() < 2 {
        args
    } else {
        let a2 = if spec_has_flag(args, defaults[0]) {
            args
        } else {
            args + seq![defaults[0], defaults[1]]
        };
        spec_append_defaults(a2, defaults.skip(2))
    }
}

/// Append each default (flag, value) pair whose flag is absent.
fn append_default_pairs(args: Vec<String>, defaults: &Vec<String>) -> (r: Vec<String>)
    ensures
        r.deep_view() == spec_append_defaults(args.deep_view(), defaults.deep_view()),
{
    let ghost dv = defaults.deep_view();
    let ghost orig = args.deep_view();
    let mut cur = args;
    let mut i: usize = 0;
    proof {
        assert(dv.skip(0) =~= dv);
    }
    while i + 1 < defaults.len()
        invariant
            dv == defaults.deep_view(),
            dv.len() == defaults.len(),
            i <= defaults.len(),
            i % 2 == 0,
            spec_append_defaults(orig, dv) == spec_append_defaults(
                cur.deep_view(),
                dv.skip(i as int),
            ),
        decreases defaults.len() - i,
    {
        proof {
            assert(defaults@[i as int]@ == dv[i as int]);
            assert(defaults@[i + 1]@ == dv[i + 1]);
            assert(dv.skip(i as int)[0] == dv[i as int]);
            assert(dv.skip(i as int)[1] == dv[i + 1]);
            assert(dv.skip(i as int).skip(2) =~= dv.skip(i + 2));
            assert(dv.skip(i as int).len() >= 2);
        }
        let ghost before = cur.deep_view();
        if !has_flag(&cur, defaults[i].as_str()) {
            push_string(&mut cur, defaults[i].clone());
            push_string(&mut cur, defaults[i + 1].clone());
            proof {
                assert(cur.deep_view() =~= before + seq![dv[i as int], dv[i + 1]]);
            }
        }
        i += 2;
    }
    proof {
        assert(dv.skip(i as int).len() < 2);
    }
    cur
}

// ---------------------------------------------------------------------
// scene change and the codec-specific parameter string
// ---------------------------------------------------------------------

/// The resolved scene-change flag: on when the user explicitly requested
/// it, or when the user asked for no interval but a default one was
/// computed; otherwise off.
pub open spec fn spec_scd(
    scd: Option<bool>,
    user_keyint: Option<KeyInterval>,
    resolved: Option<int>,
) -> bool {
    scd == Some(true) || (user_keyint is None && resolved is Some)
}

/// The codec-specific parameter parts: the scene-change flag first, the
/// user's extra arguments after, in order.
pub open spec fn spec_svt_params(scd: bool, svt_args: Seq<Seq<char>>) -> Seq<Seq<char>> {
    seq![if scd { "scd=1"@ } else { "scd=0"@ }] + svt_args
}

// ---------------------------------------------------------------------
// keyframe interval resolution
// ---------------------------------------------------------------------

/// The frame rate the resolver works with: one fixed by an `fps=` token
/// of the filter expression wins, else the probed rate.
pub open spec fn spec_eff_fps(cfg: Encode, probe: Probe) -> Option<(int, int)> {
    let probe_pair = match probe.fps {
        Some(f) => Some((f.num as int, f.den as int)),
        None => None,
    };
    match opt_chars(cfg.vfilter) {
        Some(v) => match spec_vfilter_fps(v) {
            Some(p) => Some(p),
            None => probe_pair,
        },
        None => probe_pair,
    }
}

/// The pair describes an actual (positive, finite) rate.
pub open spec fn fps_valid(p: Option<(int, int)>) -> bool {
    match p {
        Some((n, d)) => n > 0 && d > 0,
        None => false,
    }
}

/// Milliseconds of the default keyframe interval applied to long inputs.
pub open spec fn spec_default_keyint_ms() -> int {
    10000
}

/// Milliseconds a probed input must reach before the default keyframe
/// interval is applied.
pub open spec fn spec_keyint_min_duration_ms() -> int {
    180000
}

/// The resolved keyframe interval in frames: an explicit interval is
/// converted through the effective frame rate; without one, inputs of at
/// least three minutes get the ten-second default; otherwise none.
pub open spec fn spec_kf(cfg: Encode, probe: Probe) -> Option<int> {
    let eff = spec_eff_fps(cfg, probe);
    match cfg.keyint {
        Some(KeyInterval::Frames(n)) => Some(n as int),
        Some(KeyInterval::Duration(ms)) => if fps_valid(eff) {
            Some(spec_duration_frames(ms as int, eff->Some_0.0, eff->Some_0.1))
        } else {
            None
        },
        None => if (match probe.duration_ms {
            Some(d) => d >= spec_keyint_min_duration_ms(),
            None => false,
        }) && fps_valid(eff) {
            Some(spec_duration_frames(spec_default_keyint_ms(), eff->Some_0.0, eff->Some_0.1))
        } else {
            None
        },
    }
}

/// An explicit duration interval meets no resolvable frame rate.
pub open spec fn spec_err_kf_unresolvable(cfg: Encode, probe: Probe) -> bool {
    (cfg.keyint matches Some(KeyInterval::Duration(_))) && !fps_valid(spec_eff_fps(cfg, probe))
}

/// The resolved frame count does not fit a machine word.
pub open spec fn spec_err_kf_too_large(cfg: Encode, probe: Probe) -> bool {
    match spec_kf(cfg, probe) {
        Some(v) => v > u64::MAX,
        None => false,
    }
}

// ---------------------------------------------------------------------
// hardware pipeline
// ---------------------------------------------------------------------

/// The hardware decoder the configuration selects: an explicit request
/// wins; else automatic selection from the detected codec, when asked
/// for. Unrecognised codecs select none and the pipeline is skipped.
pub open spec fn spec_active_decoder(cfg: Encode) -> Option<Seq<char>> {
    match opt_chars(cfg.cuda_decoder) {
        Some(n) => Some(n),
        None => if cfg.auto_hw_decoder {
            match opt_chars(cfg.detected_input_codec) {
                Some(c) => spec_auto_decoder(c),
                None => None,
            }
        } else {
            None
        },
    }
}

/// The interpolation method of the hardware scale filter.
pub open spec fn spec_scaling_method(cfg: Encode) -> Seq<char> {
    match opt_chars(cfg.cuda_scaling_method) {
        Some(m) => m,
        None => "lanczos"@,
    }
}

/// The crop filter for a detected rectangle.
pub open spec fn spec_crop_filter(c: Crop) -> Seq<char> {
    "crop="@ + dec_str(c.top as nat) + ":"@ + dec_str(c.bottom as nat) + ":"@ + dec_str(
        c.left as nat,
    ) + ":"@ + dec_str(c.right as nat)
}

/// The hardware filter operations, in canonical order: the crop first
/// (when configured and detected, preceded by its hardware-upload step),
/// the scale after it, any other configured filter names unchanged, in
/// their order.
pub open spec fn spec_cuda_ops(cfg: Encode) -> Seq<Seq<char>> {
    let fl = cfg.cuda_filters.deep_view();
    (if fl.contains("crop"@) && cfg.detected_crop is Some {
        seq!["hwupload_cuda,"@ + spec_crop_filter(cfg.detected_crop->0)]
    } else {
        Seq::empty()
    }) + (if fl.contains("scale"@) {
        seq![spec_cuda_scale(spec_scaling_method(cfg))]
    } else {
        Seq::empty()
    }) + fl.filter(|f: Seq<char>| f != "crop"@ && f != "scale"@)
}

/// The hardware filter chain: the operations joined, wrapped once in the
/// download/format/upload bracket, so software filters may stand on
/// either side.
pub open spec fn spec_cuda_chain(cfg: Encode) -> Option<Seq<char>> {
    let ops = spec_cuda_ops(cfg);
    if ops.len() == 0 {
        None
    } else {
        Some("hwdownload,format=nv12,"@ + join_sep(ops, ',') + ",hwupload_cuda"@)
    }
}

/// The resolved filter expression: with an active hardware pipeline the
/// chain is prepended to the user's expression; otherwise the user's
/// expression stands unchanged.
pub open spec fn spec_vfilter_merged(cfg: Encode, active: bool) -> Option<Seq<char>> {
    let user = opt_chars(cfg.vfilter);
    if active {
        match spec_cuda_chain(cfg) {
            Some(c) => match user {
                Some(v) => if v.len() > 0 {
                    Some(c + ","@ + v)
                } else {
                    Some(c)
                },
                None => Some(c),
            },
            None => user,
        }
    } else {
        user
    }
}

/// The hardware-acceleration input arguments of an active decoder.
pub open spec fn spec_cuda_input_args(cfg: Encode, active: Option<Seq<char>>) -> Seq<Seq<char>> {
    match active {
        Some(d) => seq![
            "-hwaccel"@,
            "cuda"@,
            "-hwaccel_output_format"@,
            "cuda"@,
            "-extra_hw_frames"@,
            dec_str(cfg.cuda_surfaces as nat),
            "-c:v"@,
            d,
        ],
        None => Seq::empty(),
    }
}

// ---------------------------------------------------------------------
// reserved flags
// ---------------------------------------------------------------------

/// Flags the resolver itself controls; callers may supply them in no
/// argument list.
pub open spec fn is_reserved_base(a: Seq<char>) -> bool {
    a == "-i"@ || a == "-y"@ || a == "-n"@ || a == "-pix_fmt"@ || a == "-crf"@ || a == "-preset"@
        || a == "-vf"@ || a == "-filter:v"@
}

/// Flags reserved among output arguments: the base set and every
/// spelling of the audio and video codec selections.
pub open spec fn is_reserved_out(a: Seq<char>) -> bool {
    is_reserved_base(a) || a == "-c:a"@ || a == "-codec:a"@ || a == "-acodec"@ || a == "-c:v"@
        || a == "-c:v:0"@ || a == "-codec:v"@ || a == "-codec:v:0"@ || a == "-vcodec"@
}

/// Some output argument is reserved.
pub open spec fn spec_any_reserved_out(args: Seq<Seq<char>>) -> bool {
    exists|i: int| 0 <= i < args.len() && is_reserved_out(#[trigger] args[i])
}

/// Some input argument is reserved.
pub open spec fn spec_any_reserved_in(args: Seq<Seq<char>>) -> bool {
    exists|i: int| 0 <= i < args.len() && is_reserved_base(#[trigger] args[i])
}

/// Whether `a` is reserved (among output arguments when `out`, among
/// input arguments otherwise).
fn is_reserved_exec(a: &str, out: bool) -> (r: bool)
    ensures
        r == if out {
            is_reserved_out(a@)
        } else {
            is_reserved_base(a@)
        },
{
    let base = str_eq(a, "-i") || str_eq(a, "-y") || str_eq(a, "-n") || str_eq(a, "-pix_fmt")
        || str_eq(a, "-crf") || str_eq(a, "-preset") || str_eq(a, "-vf") || str_eq(a, "-filter:v");
    if out {
        base || str_eq(a, "-c:a") || str_eq(a, "-codec:a") || str_eq(a, "-acodec") || str_eq(
            a,
            "-c:v",
        ) || str_eq(a, "-c:v:0") || str_eq(a, "-codec:v") || str_eq(a, "-codec:v:0") || str_eq(
            a,
            "-vcodec",
        )
    } else {
        base
    }
}

/// The first reserved flag among `args`, or `None`.
fn find_reserved(args: &Vec<String>, out: bool) -> (r: Option<String>)
    ensures
        match r {
            Some(f) => exists|i: int|
                0 <= i < args.deep_view().len() && #[trigger] args.deep_view()[i] == f@ && (if out {
                    is_reserved_out(f@)
                } else {
                    is_reserved_base(f@)
                }) && forall|j: int|
                    0 <= j < i ==> !(if out {
                        is_reserved_out(#[trigger] args.deep_view()[j])
                    } else {
                        is_reserved_base(args.deep_view()[j])
                    }),
            None => if out {
                !spec_any_reserved_out(args.deep_view())
            } else {
                !spec_any_reserved_in(args.deep_view())
            },
        },
{
    let ghost dv = args.deep_view();
    let mut i: usize = 0;
    while i < args.len()
        invariant
            dv == args.deep_view(),
            dv.len() == args.len(),
            i <= args.len(),
            forall|j: int|
                0 <= j < i ==> !(if out {
                    is_reserved_out(#[trigger] dv[j])
                } else {
                    is_reserved_base(dv[j])
                }),
        decreases args.len() - i,
    {
        proof {
            assert(args@[i as int]@ == dv[i as int]);
        }
        if is_reserved_exec(args[i].as_str(), out) {
            return Some(args[i].clone());
        }
        i += 1;
    }
    None
}

// ---------------------------------------------------------------------
// the remaining resolved fields
// ---------------------------------------------------------------------

/// The resolved preset: an explicit one wins; the default family falls
/// back to its fixed default; others leave it unset.
pub open spec fn spec_preset(cfg: Encode) -> Option<Seq<char>> {
    match opt_chars(cfg.preset) {
        Some(p) => Some(p),
        None => if spec_encoder_kind(cfg.encoder.name@) == EncoderKind::SvtAv1 {
            Some("8"@)
        } else {
            None
        },
    }
}

/// The resolved pixel format: an explicit one wins; ten-bit-preferring
/// families get the ten-bit default; an active hardware decoder fixes
/// the format its frames arrive in; otherwise none.
pub open spec fn spec_pix_fmt(cfg: Encode, active: bool) -> Option<PixelFormat> {
    match cfg.pix_format {
        Some(p) => Some(p),
        None => if spec_encoder_kind(cfg.encoder.name@) == EncoderKind::SvtAv1
            || spec_encoder_kind(cfg.encoder.name@) == EncoderKind::Aom || spec_encoder_kind(
            cfg.encoder.name@,
        ) == EncoderKind::Rav1e {
            Some(PixelFormat::Yuv420p10le)
        } else if active {
            Some(PixelFormat::Yuv420p)
        } else {
            None
        },
    }
}

/// The resolved output arguments: the flattened user arguments, the
/// codec-specific parameter argument of the default family, the keyframe
/// flag when an interval was resolved and none is present, and the
/// family's fixed defaults for flags still absent.
pub open spec fn spec_out_args(cfg: Encode, probe: Probe) -> Seq<Seq<char>> {
    let kind = spec_encoder_kind(cfg.encoder.name@);
    let kf = spec_kf(cfg, probe);
    let scd = spec_scd(cfg.scd, cfg.keyint, kf);
    let flat = spec_flatten(cfg.enc_args.deep_view());
    let with_params = if kind == EncoderKind::SvtAv1 {
        flat + seq![
            "-svtav1-params"@,
            join_sep(spec_svt_params(scd, cfg.svt_args.deep_view()), ':'),
        ]
    } else {
        flat
    };
    let with_g = match kf {
        Some(n) => if !spec_has_flag(with_params, "-g"@) {
            with_params + seq!["-g"@, dec_str(n as nat)]
        } else {
            with_params
        },
        None => with_params,
    };
    spec_append_defaults(with_g, spec_default_output_args(kind))
}

/// The resolved input arguments: the flattened user arguments, the
/// hardware-acceleration arguments of an active decoder, and the
/// family's fixed defaults for flags still absent.
pub open spec fn spec_in_args(cfg: Encode) -> Seq<Seq<char>> {
    let kind = spec_encoder_kind(cfg.encoder.name@);
    let flat = spec_flatten(cfg.enc_input_args.deep_view());
    spec_append_defaults(
        flat + spec_cuda_input_args(cfg, spec_active_decoder(cfg)),
        spec_default_input_args(kind),
    )
}

// ---------------------------------------------------------------------
// error conditions, in the order they are detected
// ---------------------------------------------------------------------

/// The decoder listing handed to the resolver.
pub open spec fn opt_decoders(d: Option<&Vec<String>>) -> Option<Seq<Seq<char>>> {
    match d {
        Some(v) => Some(v.deep_view()),
        None => None,
    }
}

/// A decoder is requested but no listing was given to confirm it.
pub open spec fn spec_err_list_missing(cfg: Encode, decoders: Option<Seq<Seq<char>>>) -> bool {
    cfg.cuda_decoder is Some && decoders is None
}

/// The requested decoder is not among the listed ones.
pub open spec fn spec_err_unavailable(cfg: Encode, decoders: Option<Seq<Seq<char>>>) -> bool {
    match (opt_chars(cfg.cuda_decoder), decoders) {
        (Some(n), Some(l)) => !l.contains(n),
        _ => false,
    }
}

/// A decoder is active but the surface count is out of range.
pub open spec fn spec_err_surfaces(cfg: Encode) -> bool {
    spec_active_decoder(cfg) is Some && !(8 <= cfg.cuda_surfaces && cfg.cuda_surfaces <= 32)
}

/// Encoder-specific extra arguments meet the wrong encoder.
pub open spec fn spec_err_gating(cfg: Encode) -> bool {
    spec_encoder_kind(cfg.encoder.name@) != EncoderKind::SvtAv1 && cfg.svt_args.deep_view().len()
        > 0
}

/// All validations pass and resolution succeeds.
pub open spec fn spec_resolve_ok(
    cfg: Encode,
    probe: Probe,
    decoders: Option<Seq<Seq<char>>>,
) -> bool {
    &&& !spec_err_list_missing(cfg, decoders)
    &&& !spec_err_unavailable(cfg, decoders)
    &&& !spec_err_surfaces(cfg)
    &&& !spec_err_gating(cfg)
    &&& !spec_err_kf_unresolvable(cfg, probe)
    &&& !spec_err_kf_too_large(cfg, probe)
    &&& !spec_any_params_arg(cfg.enc_args.deep_view())
    &&& !spec_any_params_arg(cfg.enc_input_args.deep_view())
    &&& !spec_any_reserved_out(spec_out_args(cfg, probe))
    &&& !spec_any_reserved_in(spec_in_args(cfg))
}

// ---------------------------------------------------------------------
// executable pieces of the resolver
// ---------------------------------------------------------------------

/// The codec-specific parameter value: the parts joined with `:`.
fn build_svt_params_arg(scd: bool, svt_args: &Vec<String>) -> (r: String)
    ensures
        r@ == join_sep(spec_svt_params(scd, svt_args.deep_view()), ':'),
{
    let ghost dv = svt_args.deep_view();
    let mut parts: Vec<String> = Vec::new();
    if scd {
        push_string(&mut parts, String::from_str("scd=1"));
    } else {
        push_string(&mut parts, String::from_str("scd=0"));
    }
    let mut i: usize = 0;
    while i < svt_args.len()
        invariant
            dv == svt_args.deep_view(),
            dv.len() == svt_args.len(),
            i <= svt_args.len(),
            parts.deep_view() =~= seq![if scd { "scd=1"@ } else { "scd=0"@ }] + dv.subrange(
                0,
                i as int,
            ),
        decreases svt_args.len() - i,
    {
        proof {
            assert(svt_args@[i as int]@ == dv[i as int]);
        }
        push_string(&mut parts, svt_args[i].clone());
        proof {
            assert(parts.deep_view() =~= seq![if scd { "scd=1"@ } else { "scd=0"@ }]
                + dv.subrange(0, i + 1));
        }
        i += 1;
    }
    proof {
        assert(dv.subrange(0, dv.len() as int) =~= dv);
        assert(parts.deep_view() =~= spec_svt_params(scd, dv));
    }
    join_colon(&parts)
}

/// The crop filter for a detected rectangle.
fn build_crop_filter(c: &Crop) -> (r: String)
    ensures
        r@ == spec_crop_filter(*c),
{
    let mut s = String::from_str("crop=");
    let t = u32_to_string(c.top);
    s.append(t.as_str());
    s.append(":");
    let b = u32_to_string(c.bottom);
    s.append(b.as_str());
    s.append(":");
    let l = u32_to_string(c.left);
    s.append(l.as_str());
    s.append(":");
    let rr = u32_to_string(c.right);
    s.append(rr.as_str());
    proof {
        assert(s@ =~= spec_crop_filter(*c));
    }
    s
}

impl Encode {
    /// A configuration with nothing but the encoder and the input set:
    /// every option at its default, the surface count at sixteen.
    pub fn new(encoder: Encoder, input: String) -> (r: Encode)
        ensures
            r.encoder == encoder,
            r.input == input,
            r.vfilter is None,
            r.preset is None,
            r.pix_format is None,
            r.keyint is None,
            r.scd is None,
            r.svt_args@.len() == 0,
            r.enc_args@.len() == 0,
            r.enc_input_args@.len() == 0,
            r.cuda_decoder is None,
            r.cuda_filters@.len() == 0,
            r.cuda_scaling_method is None,
            r.cuda_surfaces == 16,
            !r.auto_hw_decoder,
            r.detected_input_codec is None,
            r.detected_crop is None,
    {
        Encode {
            encoder,
            input,
            vfilter: None,
            preset: None,
            pix_format: None,
            keyint: None,
            scd: None,
            svt_args: Vec::new(),
            enc_args: Vec::new(),
            enc_input_args: Vec::new(),
            cuda_decoder: None,
            cuda_filters: Vec::new(),
            cuda_scaling_method: None,
            cuda_surfaces: 16,
            auto_hw_decoder: false,
            detected_input_codec: None,
            detected_crop: None,
        }
    }

    /// The hardware filter operations, in canonical order.
    fn cuda_ops(&self) -> (r: Vec<String>)
        ensures
            r.deep_view() == spec_cuda_ops(*self),
    {
        let ghost fl = self.cuda_filters.deep_view();
        let method: String = match &self.cuda_scaling_method {
            Some(m) => m.clone(),
            None => String::from_str("lanczos"),
        };
        proof {
            assert(method@ == spec_scaling_method(*self));
        }
        let mut ops: Vec<String> = Vec::new();
        if has_flag(&self.cuda_filters, "crop") {
            match &self.detected_crop {
                Some(c) => {
                    let mut op = String::from_str("hwupload_cuda,");
                    let cropf = build_crop_filter(c);
                    op.append(cropf.as_str());
                    push_string(&mut ops, op);
                },
                None => {},
            }
        }
        let ghost crop_part: Seq<Seq<char>> = if spec_has_flag(fl, "crop"@)
            && self.detected_crop is Some {
            seq!["hwupload_cuda,"@ + spec_crop_filter(self.detected_crop->0)]
        } else {
            Seq::empty()
        };
        proof {
            assert(ops.deep_view() =~= crop_part);
        }
        if has_flag(&self.cuda_filters, "scale") {
            push_string(&mut ops, apply_cuda_scaling_method(method.as_str()));
        }
        let ghost scale_part: Seq<Seq<char>> = if spec_has_flag(fl, "scale"@) {
            seq![spec_cuda_scale(spec_scaling_method(*self))]
        } else {
            Seq::empty()
        };
        proof {
            assert(ops.deep_view() =~= crop_part + scale_part);
        }
        let mut i: usize = 0;
        while i < self.cuda_filters.len()
            invariant
                fl == self.cuda_filters.deep_view(),
                fl.len() == self.cuda_filters.len(),
                i <= self.cuda_filters.len(),
                ops.deep_view() =~= crop_part + scale_part + fl.subrange(0, i as int).filter(
                    |f: Seq<char>| f != "crop"@ && f != "scale"@,
                ),
            decreases self.cuda_filters.len() - i,
        {
            let ghost prefix = fl.subrange(0, i as int);
            proof {
                assert(self.cuda_filters@[i as int]@ == fl[i as int]);
                assert(fl.subrange(0, i + 1) =~= prefix.push(fl[i as int]));
                crate::strutil::lemma_filter_push(
                    prefix,
                    fl[i as int],
                    |f: Seq<char>| f != "crop"@ && f != "scale"@,
                );
            }
            let f = self.cuda_filters[i].as_str();
            if !str_eq(f, "crop") && !str_eq(f, "scale") {
                push_string(&mut ops, self.cuda_filters[i].clone());
            }
            i += 1;
        }
        proof {
            assert(fl.subrange(0, fl.len() as int) =~= fl);
            assert(ops.deep_view() =~= spec_cuda_ops(*self));
        }
        ops
    }

    /// The hardware filter chain, wrapped for software neighbours.
    fn cuda_chain(&self) -> (r: Option<String>)
        ensures
            match r {
                Some(c) => spec_cuda_chain(*self) == Some(c@),
                None => spec_cuda_chain(*self) is None,
            },
    {
        let ops = self.cuda_ops();
        if ops.len() == 0 {
            return None;
        }
        let joined = join_comma(&ops);
        let mut s = String::from_str("hwdownload,format=nv12,");
        s.append(joined.as_str());
        s.append(",hwupload_cuda");
        proof {
            assert(s@ =~= "hwdownload,format=nv12,"@ + join_sep(spec_cuda_ops(*self), ',')
                + ",hwupload_cuda"@);
        }
        Some(s)
    }

    /// Resolve the keyframe interval to a frame count, as [`spec_kf`]
    /// describes; a duration without a resolvable frame rate, or a frame
    /// count not fitting a machine word, fails.
    fn resolve_kf(&self, probe: &Probe) -> (r: Result<Option<u64>, EncodeError>)
        ensures
            match r {
                Ok(kf) => !spec_err_kf_unresolvable(*self, *probe) && !spec_err_kf_too_large(
                    *self,
                    *probe,
                ) && (match kf {
                    Some(n) => spec_kf(*self, *probe) == Some(n as int),
                    None => spec_kf(*self, *probe) is None,
                }),
                Err(e) => (e matches EncodeError::UnresolvableFrameRate
                    && spec_err_kf_unresolvable(*self, *probe)) || (e matches
                EncodeError::FrameCountTooLarge && !spec_err_kf_unresolvable(*self, *probe)
                    && spec_err_kf_too_large(*self, *probe)),
            },
    {
        let filter_fps: Option<Fps> = match &self.vfilter {
            Some(v) => try_parse_fps_vfilter(v.as_str()),
            None => None,
        };
        let eff: Option<Fps> = match filter_fps {
            Some(f) => Some(f),
            None => probe.fps,
        };
        proof {
            match eff {
                Some(f) => assert(spec_eff_fps(*self, *probe) == Some(
                    (f.num as int, f.den as int),
                )),
                None => assert(spec_eff_fps(*self, *probe) is None),
            }
        }
        match &self.keyint {
            Some(ki) => match ki.frames(eff.as_ref()) {
                Ok(n) => Ok(Some(n)),
                Err(e) => Err(e),
            },
            None => {
                let long_enough: bool = match probe.duration_ms {
                    Some(d) => d >= 180000,
                    None => false,
                };
                if !long_enough {
                    return Ok(None);
                }
                match eff {
                    Some(f) => {
                        if !f.valid() {
                            return Ok(None);
                        }
                        match KeyInterval::Duration(10000).frames(Some(&f)) {
                            Ok(n) => Ok(Some(n)),
                            Err(e) => Err(e),
                        }
                    },
                    None => Ok(None),
                }
            },
        }
    }

    /// Resolve the configuration, a probe result and a target quality
    /// value into a validated argument set, or the first validation
    /// failure. `cuda_decoders` is the external tool's decoder listing,
    /// required only when a hardware decoder is explicitly requested.
    pub fn to_ffmpeg_args(
        &self,
        crf_tenths: u32,
        probe: &Probe,
        cuda_decoders: Option<&Vec<String>>,
    ) -> (r: Result<FfmpegEncodeArgs, EncodeError>)
        ensures
            ({
                let cfg = *self;
                let dec = opt_decoders(cuda_decoders);
                let active = spec_active_decoder(cfg) is Some;
                match r {
                    Ok(a) => spec_resolve_ok(cfg, *probe, dec) && a.input@ == cfg.input@
                        && a.vcodec@ == cfg.encoder.name@ && a.crf_tenths == crf_tenths
                        && a.video_only == false && opt_chars(a.preset) == spec_preset(cfg)
                        && a.pix_fmt == spec_pix_fmt(cfg, active) && opt_chars(a.vfilter)
                        == spec_vfilter_merged(cfg, active) && a.output_args.deep_view()
                        == spec_out_args(cfg, *probe) && a.input_args.deep_view() == spec_in_args(
                        cfg,
                    ) && (forall|i: int|
                        0 <= i < a.output_args.deep_view().len() ==> !is_reserved_out(
                            #[trigger] a.output_args.deep_view()[i],
                        )) && (forall|i: int|
                        0 <= i < a.input_args.deep_view().len() ==> !is_reserved_base(
                            #[trigger] a.input_args.deep_view()[i],
                        )),
                    Err(e) => match e {
                        EncodeError::DecoderListUnavailable { requested } => spec_err_list_missing(
                            cfg,
                            dec,
                        ) && opt_chars(cfg.cuda_decoder) == Some(requested@),
                        EncodeError::UnavailableDecoder { requested, available } => {
                            &&& !spec_err_list_missing(cfg, dec)
                            &&& spec_err_unavailable(cfg, dec)
                            &&& opt_chars(cfg.cuda_decoder) == Some(requested@)
                            &&& Some(available.deep_view()) == dec
                        },
                        EncodeError::InvalidSurfaceCount { given } => {
                            &&& !spec_err_list_missing(cfg, dec)
                            &&& !spec_err_unavailable(cfg, dec)
                            &&& spec_err_surfaces(cfg)
                            &&& given == cfg.cuda_surfaces
                        },
                        EncodeError::WrongEncoderForSvtArgs { encoder } => {
                            &&& !spec_err_list_missing(cfg, dec)
                            &&& !spec_err_unavailable(cfg, dec)
                            &&& !spec_err_surfaces(cfg)
                            &&& spec_err_gating(cfg)
                            &&& encoder@ == cfg.encoder.name@
                        },
                        EncodeError::UnresolvableFrameRate => {
                            &&& !spec_err_list_missing(cfg, dec)
                            &&& !spec_err_unavailable(cfg, dec)
                            &&& !spec_err_surfaces(cfg)
                            &&& !spec_err_gating(cfg)
                            &&& spec_err_kf_unresolvable(cfg, *probe)
                        },
                        EncodeError::FrameCountTooLarge => {
                            &&& !spec_err_list_missing(cfg, dec)
                            &&& !spec_err_unavailable(cfg, dec)
                            &&& !spec_err_surfaces(cfg)
                            &&& !spec_err_gating(cfg)
                            &&& !spec_err_kf_unresolvable(cfg, *probe)
                            &&& spec_err_kf_too_large(cfg, *probe)
                        },
                        EncodeError::SvtParamsViaGenericArgs => {
                            &&& !spec_err_list_missing(cfg, dec)
                            &&& !spec_err_unavailable(cfg, dec)
                            &&& !spec_err_surfaces(cfg)
                            &&& !spec_err_gating(cfg)
                            &&& !spec_err_kf_unresolvable(cfg, *probe)
                            &&& !spec_err_kf_too_large(cfg, *probe)
                            &&& (spec_any_params_arg(cfg.enc_args.deep_view())
                                || spec_any_params_arg(cfg.enc_input_args.deep_view()))
                        },
                        EncodeError::ReservedOutputArg { flag } => {
                            &&& !spec_err_list_missing(cfg, dec)
                            &&& !spec_err_unavailable(cfg, dec)
                            &&& !spec_err_surfaces(cfg)
                            &&& !spec_err_gating(cfg)
                            &&& !spec_err_kf_unresolvable(cfg, *probe)
                            &&& !spec_err_kf_too_large(cfg, *probe)
                            &&& !spec_any_params_arg(cfg.enc_args.deep_view())
                            &&& !spec_any_params_arg(cfg.enc_input_args.deep_view())
                            &&& spec_any_reserved_out(spec_out_args(cfg, *probe))
                            &&& is_reserved_out(flag@)
                            &&& exists|i: int|
                                0 <= i < spec_out_args(cfg, *probe).len() && #[trigger] spec_out_args(
                                    cfg,
                                    *probe,
                                )[i] == flag@ && forall|j: int|
                                    0 <= j < i ==> !is_reserved_out(
                                        #[trigger] spec_out_args(cfg, *probe)[j],
                                    )
                        },
                        EncodeError::ReservedInputArg { flag } => {
                            &&& !spec_err_list_missing(cfg, dec)
                            &&& !spec_err_unavailable(cfg, dec)
                            &&& !spec_err_surfaces(cfg)
                            &&& !spec_err_gating(cfg)
                            &&& !spec_err_kf_unresolvable(cfg, *probe)
                            &&& !spec_err_kf_too_large(cfg, *probe)
                            &&& !spec_any_params_arg(cfg.enc_args.deep_view())
                            &&& !spec_any_params_arg(cfg.enc_input_args.deep_view())
                            &&& !spec_any_reserved_out(spec_out_args(cfg, *probe))
                            &&& spec_any_reserved_in(spec_in_args(cfg))
                            &&& is_reserved_base(flag@)
                            &&& exists|i: int|
                                0 <= i < spec_in_args(cfg).len() && #[trigger] spec_in_args(
                                    cfg,
                                )[i] == flag@ && forall|j: int|
                                    0 <= j < i ==> !is_reserved_base(
                                        #[trigger] spec_in_args(cfg)[j],
                                    )
                        },
                    },
                }
            }),
    {
        let ghost cfg = *self;
        // explicit decoder requests are confirmed against the listing
        match &self.cuda_decoder {
            Some(name) => match cuda_decoders {
                None => {
                    return Err(EncodeError::DecoderListUnavailable { requested: name.clone() });
                },
                Some(list) => {
                    if !decoder_available(list, name.as_str()) {
                        return Err(
                            EncodeError::UnavailableDecoder {
                                requested: name.clone(),
                                available: clone_string_vec(list),
                            },
                        );
                    }
                },
            },
            None => {},
        }
        // the decoder the pipeline will use, if any
        let active: Option<String> = match &self.cuda_decoder {
            Some(n) => Some(n.clone()),
            None => {
                if self.auto_hw_decoder {
                    match &self.detected_input_codec {
                        Some(c) => auto_select_decoder(c.as_str()),
                        None => None,
                    }
                } else {
                    None
                }
            },
        };
        proof {
            match &active {
                Some(d) => assert(spec_active_decoder(cfg) == Some(d@)),
                None => assert(spec_active_decoder(cfg) is None),
            }
        }
        // surface counts outside the supported range are refused
        if active.is_some() {
            if self.cuda_surfaces < 8 || self.cuda_surfaces > 32 {
                return Err(EncodeError::InvalidSurfaceCount { given: self.cuda_surfaces });
            }
        }
        // encoder-specific extra arguments need the encoder that owns them
        if !self.encoder.is_svt() && self.svt_args.len() > 0 {
            return Err(EncodeError::WrongEncoderForSvtArgs { encoder: self.encoder.name.clone() });
        }
        // keyframe interval and scene-change heuristics
        let kf: Option<u64> = match self.resolve_kf(probe) {
            Ok(v) => v,
            Err(e) => {
                return Err(e);
            },
        };
        let scd_on: bool = (match self.scd {
            Some(b) => b,
            None => false,
        }) || (self.keyint.is_none() && kf.is_some());
        proof {
            assert(scd_on == spec_scd(cfg.scd, cfg.keyint, spec_kf(cfg, *probe)));
        }
        // output arguments
        let mut out = match flatten_args(&self.enc_args) {
            Ok(v) => v,
            Err(e) => {
                return Err(e);
            },
        };
        if self.encoder.is_svt() {
            let params = build_svt_params_arg(scd_on, &self.svt_args);
            let ghost before = out.deep_view();
            push_string(&mut out, String::from_str("-svtav1-params"));
            push_string(&mut out, params);
            proof {
                assert(out.deep_view() =~= before + seq![
                    "-svtav1-params"@,
                    join_sep(spec_svt_params(scd_on, cfg.svt_args.deep_view()), ':'),
                ]);
            }
        }
        match kf {
            Some(n) => {
                if !has_flag(&out, "-g") {
                    let ghost before = out.deep_view();
                    push_string(&mut out, String::from_str("-g"));
                    push_string(&mut out, u64_to_string(n));
                    proof {
                        assert(out.deep_view() =~= before + seq!["-g"@, dec_str(n as nat)]);
                    }
                }
            },
            None => {},
        }
        let out = append_default_pairs(out, &self.encoder.default_output_args());
        proof {
            assert(out.deep_view() == spec_out_args(cfg, *probe));
        }
        // input arguments
        let mut inargs = match flatten_args(&self.enc_input_args) {
            Ok(v) => v,
            Err(e) => {
                return Err(e);
            },
        };
        match &active {
            Some(d) => {
                let ghost before = inargs.deep_view();
                push_string(&mut inargs, String::from_str("-hwaccel"));
                push_string(&mut inargs, String::from_str("cuda"));
                push_string(&mut inargs, String::from_str("-hwaccel_output_format"));
                push_string(&mut inargs, String::from_str("cuda"));
                push_string(&mut inargs, String::from_str("-extra_hw_frames"));
                push_string(&mut inargs, u32_to_string(self.cuda_surfaces));
                push_string(&mut inargs, String::from_str("-c:v"));
                push_string(&mut inargs, d.clone());
                proof {
                    assert(inargs.deep_view() =~= before + spec_cuda_input_args(
                        cfg,
                        spec_active_decoder(cfg),
                    ));
                }
            },
            None => {
                proof {
                    assert(inargs.deep_view() =~= inargs.deep_view()
                        + spec_cuda_input_args(cfg, spec_active_decoder(cfg)));
                }
            },
        }
        let inargs = append_default_pairs(inargs, &self.encoder.default_input_args());
        proof {
            assert(inargs.deep_view() == spec_in_args(cfg));
        }
        // no reserved flag may stand in either list
        match find_reserved(&out, true) {
            Some(f) => {
                return Err(EncodeError::ReservedOutputArg { flag: f });
            },
            None => {},
        }
        match find_reserved(&inargs, false) {
            Some(f) => {
                return Err(EncodeError::ReservedInputArg { flag: f });
            },
            None => {},
        }
        // the remaining fields
        let preset: Option<String> = match &self.preset {
            Some(p) => Some(p.clone()),
            None => match self.encoder.default_preset() {
                Some(d) => Some(String::from_str(d)),
                None => None,
            },
        };
        let pix_fmt: Option<PixelFormat> = match self.pix_format {
            Some(p) => Some(p),
            None => {
                if self.encoder.prefers_10bit() {
                    Some(PixelFormat::Yuv420p10le)
                } else if active.is_some() {
                    Some(PixelFormat::Yuv420p)
                } else {
                    None
                }
            },
        };
        let chain: Option<String> = if active.is_some() {
            self.cuda_chain()
        } else {
            None
        };
        let vfilter: Option<String> = match chain {
            Some(c) => match &self.vfilter {
                Some(v) => {
                    if v.as_str().is_empty() {
                        Some(c)
                    } else {
                        let mut m = c;
                        m.append(",");
                        m.append(v.as_str());
                        Some(m)
                    }
                },
                None => Some(c),
            },
            None => match &self.vfilter {
                Some(v) => Some(v.clone()),
                None => None,
            },
        };
        proof {
            assert(opt_chars(vfilter) == spec_vfilter_merged(
                cfg,
                spec_active_decoder(cfg) is Some,
            ));
        }
        Ok(
            FfmpegEncodeArgs {
                input: self.input.clone(),
                vcodec: self.encoder.name.clone(),
                pix_fmt,
                vfilter,
                crf_tenths,
                preset,
                output_args: out,
                input_args: inargs,
                video_only: false,
            },
        )
    }
}

} // verus!
