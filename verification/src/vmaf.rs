//! Construction of the two-input filter-graph expression handed to the
//! perceptual-quality tool, with automatic model selection and minimal
//! upscaling.

use vstd::prelude::*;

use crate::pixel_format::PixelFormat;
use crate::strutil::{
    dec_str, dec_value, all_dec_digits, join_colon, join_sep, lemma_first_occurrence,
    lemma_no_occurrence, parse_u32, seq_contains, seq_ends_with, spec_find, split_once_char,
    str_contains, str_ends_with, str_eq, u32_to_string, u64_to_string,
};
use vstd::seq_lib::*;
use vstd::string::StrSliceExecFns;
use vstd::string::StringExecFns;

verus! {

/// How streams are scaled before the quality comparison.
#[derive(Debug, Clone, Copy, PartialEq, Eq, Structural, Hash)]
pub enum VmafScale {
    /// Never scale.
    Disabled,
    /// Scale up small streams to the resolution the model was trained at.
    Auto,
    /// Scale minimally towards the given bounds.
    Custom { width: u32, height: u32 },
}

/// The perceptual model in use.
#[derive(Debug, Clone, Copy, PartialEq, Eq, Structural, Hash)]
pub enum VmafModel {
    /// Default model, trained at 1920x1080.
    Vmaf1K,
    /// Model trained at 3840x2160.
    Vmaf4K,
    /// Some other, user-specified model.
    Custom,
}

/// Options of the quality comparison: raw tool arguments and the scaling
/// policy.
#[derive(Debug, Clone, PartialEq, Eq, Hash)]
pub struct Vmaf {
    /// Additional tool arguments, e.g. `n_threads=8` or `n_subsample=4`.
    pub vmaf_args: Vec<String>,
    /// Scaling applied to both streams during the comparison.
    pub vmaf_scale: VmafScale,
}

impl Default for Vmaf {
    /// No extra arguments; automatic scaling.
    fn default() -> (r: Vmaf)
        ensures
            r.vmaf_args@.len() == 0,
            r.vmaf_scale == VmafScale::Auto,
    {
        Vmaf { vmaf_args: Vec::new(), vmaf_scale: VmafScale::Auto }
    }
}

/// The spelling of a scaling policy, the inverse of
/// [`parse_vmaf_scale`].
pub open spec fn spec_vmaf_scale_spelling(v: VmafScale) -> Seq<char> {
    match v {
        VmafScale::Disabled => "none"@,
        VmafScale::Auto => "auto"@,
        VmafScale::Custom { width, height } => dec_str(width as nat) + "x"@ + dec_str(
            height as nat,
        ),
    }
}

impl VmafScale {
    /// Render the policy as `none`, `auto` or `WxH`.
    pub fn spelling(&self) -> (r: String)
        ensures
            r@ == spec_vmaf_scale_spelling(*self),
    {
        match self {
            VmafScale::Disabled => String::from_str("none"),
            VmafScale::Auto => String::from_str("auto"),
            VmafScale::Custom { width, height } => {
                let mut s = u32_to_string(*width);
                s.append("x");
                let h = u32_to_string(*height);
                s.append(h.as_str());
                proof {
                    assert(s@ =~= spec_vmaf_scale_spelling(*self));
                }
                s
            },
        }
    }
}

/// Accept any raw tool argument as given.
pub fn parse_vmaf_arg(arg: &str) -> (r: String)
    ensures
        r@ == arg@,
{
    String::from_str(arg)
}

/// Why a spelling is not a scaling policy.
#[derive(Clone, Debug, PartialEq, Eq)]
pub struct VmafScaleError {}

impl VmafScaleError {
    /// Render the failure for reporting.
    pub fn message(&self) -> (r: String)
        ensures
            r@ == "vmaf-scale must be 'none', 'auto' or WxH format e.g. '1920x1080'"@,
    {
        String::from_str("vmaf-scale must be 'none', 'auto' or WxH format e.g. '1920x1080'")
    }
}

/// The scaling policy a spelling denotes: `none`, `auto`, or `WxH` with
/// both dimensions plain numbers fitting a machine word.
pub open spec fn spec_parse_vmaf_scale(s: Seq<char>) -> Option<VmafScale> {
    if s == "none"@ {
        Some(VmafScale::Disabled)
    } else if s == "auto"@ {
        Some(VmafScale::Auto)
    } else if spec_find(s, 'x') >= 0 {
        let i = spec_find(s, 'x');
        let a = s.subrange(0, i);
        let b = s.subrange(i + 1, s.len() as int);
        if a.len() > 0 && all_dec_digits(a) && dec_value(a) <= u32::MAX && b.len() > 0
            && all_dec_digits(b) && dec_value(b) <= u32::MAX {
            Some(
                VmafScale::Custom {
                    width: dec_value(a) as u32,
                    height: dec_value(b) as u32,
                },
            )
        } else {
            None
        }
    } else {
        None
    }
}

/// Parse a scaling-policy spelling, as [`spec_parse_vmaf_scale`]
/// describes.
pub fn parse_vmaf_scale(vs: &str) -> (r: Result<VmafScale, VmafScaleError>)
    ensures
        match r {
            Ok(v) => spec_parse_vmaf_scale(vs@) == Some(v),
            Err(_) => spec_parse_vmaf_scale(vs@) is None,
        },
{
    if str_eq(vs, "none") {
        return Ok(VmafScale::Disabled);
    }
    if str_eq(vs, "auto") {
        return Ok(VmafScale::Auto);
    }
    match split_once_char(vs, 'x') {
        Some((a, b)) => {
            proof {
                let i = choose|i: int|
                    0 <= i < vs@.len() && vs@[i] == 'x' && (forall|j: int|
                        0 <= j < i ==> vs@[j] != 'x') && a@ == vs@.subrange(0, i) && b@
                        == vs@.subrange(i + 1, vs@.len() as int);
                lemma_first_occurrence(vs@, 'x', i);
            }
            match (parse_u32(a), parse_u32(b)) {
                (Some(width), Some(height)) => Ok(VmafScale::Custom { width, height }),
                _ => Err(VmafScaleError {}),
            }
        },
        None => {
            proof {
                lemma_no_occurrence(vs@, 'x');
            }
            Err(VmafScaleError {})
        },
    }
}

/// The argument mentions a thread count.
pub open spec fn mentions_threads(a: Seq<char>) -> bool {
    seq_contains(a, "n_threads"@)
}

/// Some argument mentions a thread count.
pub open spec fn spec_any_threads(args: Seq<Seq<char>>) -> bool {
    exists|i: int| 0 <= i < args.len() && mentions_threads(#[trigger] args[i])
}

/// The raw arguments, with a thread count set to the available
/// parallelism appended when none mentions one.
pub open spec fn spec_effective_args(args: Seq<Seq<char>>, nthreads: nat) -> Seq<Seq<char>> {
    if spec_any_threads(args) {
        args
    } else {
        args.push("n_threads="@ + dec_str(nthreads))
    }
}

/// The argument names a model.
pub open spec fn is_model_arg(a: Seq<char>) -> bool {
    seq_contains(a, "model"@)
}

/// How many arguments name a model.
pub open spec fn spec_model_count(args: Seq<Seq<char>>) -> nat {
    args.filter(|a: Seq<char>| is_model_arg(a)).len()
}

/// The first argument naming a model (empty when none does).
pub open spec fn spec_first_model(args: Seq<Seq<char>>) -> Seq<char>
    decreases args.len(),
{
    if args.len() == 0 {
        Seq::empty()
    } else if is_model_arg(args[0]) {
        args[0]
    } else {
        spec_first_model(args.drop_first())
    }
}

/// The model a single model-naming argument selects, by its suffix.
pub open spec fn spec_classify_model(a: Seq<char>) -> VmafModel {
    if seq_ends_with(a, "version=vmaf_v0.6.1"@) {
        VmafModel::Vmaf1K
    } else if seq_ends_with(a, "version=vmaf_4k_v0.6.1"@) {
        VmafModel::Vmaf4K
    } else {
        VmafModel::Custom
    }
}

/// The model the arguments select: none when no argument names one, the
/// suffix-classified model when exactly one does, and a custom model when
/// several do (ambiguity is never auto-overridden).
pub open spec fn spec_model_from_args(args: Seq<Seq<char>>) -> Option<VmafModel> {
    if spec_model_count(args) == 0 {
        None
    } else if spec_model_count(args) == 1 {
        Some(spec_classify_model(spec_first_model(args)))
    } else {
        Some(VmafModel::Custom)
    }
}

/// When no argument before `i` names a model, the search for the first
/// one may start at `i`.
proof fn lemma_first_model_skip(args: Seq<Seq<char>>, i: int)
    requires
        0 <= i <= args.len(),
        forall|j: int| 0 <= j < i ==> !is_model_arg(#[trigger] args[j]),
    ensures
        spec_first_model(args) == spec_first_model(args.skip(i)),
    decreases i,
{
    if i == 0 {
        assert(args.skip(0) =~= args);
    } else {
        lemma_first_model_skip(args, i - 1);
        let tail = args.skip(i - 1);
        assert(tail[0] == args[i - 1]);
        assert(!is_model_arg(tail[0]));
        assert(tail.drop_first() =~= args.skip(i));
    }
}

impl VmafModel {
    /// Scan the arguments for the model they select, as
    /// [`spec_model_from_args`] describes.
    pub fn from_args(args: &Vec<String>) -> (r: Option<VmafModel>)
        ensures
            r == spec_model_from_args(args.deep_view()),
    {
        let ghost dv = args.deep_view();
        let mut count: usize = 0;
        let mut first: Option<usize> = None;
        let mut i: usize = 0;
        while i < args.len()
            invariant
                dv == args.deep_view(),
                dv.len() == args.len(),
                i <= args.len(),
                count == dv.subrange(0, i as int).filter(|a: Seq<char>| is_model_arg(a)).len(),
                count <= i,
                match first {
                    Some(fi) => fi < i && is_model_arg(dv[fi as int]) && forall|j: int|
                        0 <= j < fi ==> !is_model_arg(#[trigger] dv[j]),
                    None => forall|j: int| 0 <= j < i ==> !is_model_arg(#[trigger] dv[j]),
                },
                (first is None) == (count == 0),
            decreases args.len() - i,
        {
            let ghost prefix = dv.subrange(0, i as int);
            let is_model = str_contains(args[i].as_str(), "model");
            proof {
                assert(args@[i as int]@ == dv[i as int]);
                assert(dv.subrange(0, i + 1) =~= prefix.push(dv[i as int]));
                crate::strutil::lemma_filter_push(prefix, dv[i as int], |a: Seq<char>| is_model_arg(a));
                assert(is_model == is_model_arg(dv[i as int]));
            }
            if is_model {
                count = count + 1;
                if first.is_none() {
                    first = Some(i);
                }
            }
            i += 1;
        }
        proof {
            assert(dv.subrange(0, args.len() as int) =~= dv);
        }
        if count == 0 {
            return None;
        }
        if count == 1 {
            let fi = first.unwrap();
            proof {
                lemma_first_model_skip(dv, fi as int);
                assert(dv.skip(fi as int)[0] == dv[fi as int]);
                assert(spec_first_model(dv) == dv[fi as int]);
            }
            let a = args[fi].as_str();
            if str_ends_with(a, "version=vmaf_v0.6.1") {
                return Some(VmafModel::Vmaf1K);
            }
            if str_ends_with(a, "version=vmaf_4k_v0.6.1") {
                return Some(VmafModel::Vmaf4K);
            }
            return Some(VmafModel::Custom);
        }
        Some(VmafModel::Custom)
    }
}

/// The smallest scale values meeting at least one of the target bounds:
/// the dimension whose blow-up factor is smaller is fixed to its target
/// and the other is left to the tool (`-1`).
pub open spec fn spec_minimally_scale(fw: int, fh: int, tw: int, th: int) -> (int, int) {
    if fh * tw > fw * th {
        (-1, th)  // scale vertically
    } else {
        (tw, -1)  // scale horizontally
    }
}

/// Return the smallest `(w, h)` scale values so that at least one of the
/// `target_w` or `target_h` bounds is met.
pub fn minimally_scale(from: (u32, u32), target: (u32, u32)) -> (r: (i64, i64))
    ensures
        r.0 == spec_minimally_scale(from.0 as int, from.1 as int, target.0 as int, target.1 as int).0,
        r.1 == spec_minimally_scale(from.0 as int, from.1 as int, target.0 as int, target.1 as int).1,
{
    let (from_w, from_h) = from;
    let (target_w, target_h) = target;
    proof {
        assert((from_h as int) * (target_w as int) <= (u32::MAX as int) * (u32::MAX as int)
            && (from_w as int) * (target_h as int) <= (u32::MAX as int) * (u32::MAX as int))
            by (nonlinear_arith)
            requires
                0 <= from_h <= u32::MAX,
                0 <= target_w <= u32::MAX,
                0 <= from_w <= u32::MAX,
                0 <= target_h <= u32::MAX,
        ;
    }
    let h_cross: u64 = (from_h as u64) * (target_w as u64);
    let w_cross: u64 = (from_w as u64) * (target_h as u64);
    if h_cross > w_cross {
        (-1, target_h as i64)
    } else {
        (target_w as i64, -1)
    }
}

/// The scale step for the given policy, model and distorted resolution:
/// automatic scaling upscales streams below the model's training
/// resolution; custom bounds are applied minimally when the resolution is
/// known and literally when it is not.
pub open spec fn spec_vf_scale(
    scale: VmafScale,
    model: VmafModel,
    res: Option<(u32, u32)>,
) -> Option<(int, int)> {
    match (scale, res) {
        (VmafScale::Auto, Some((w, h))) => match model {
            VmafModel::Vmaf1K => if w < 1728 && h < 972 {
                Some(spec_minimally_scale(w as int, h as int, 1920, 1080))
            } else {
                None
            },
            VmafModel::Vmaf4K => if w < 3456 && h < 1944 {
                Some(spec_minimally_scale(w as int, h as int, 3840, 2160))
            } else {
                None
            },
            VmafModel::Custom => None,
        },
        (VmafScale::Custom { width, height }, Some((w, h))) => Some(
            spec_minimally_scale(w as int, h as int, width as int, height as int),
        ),
        (VmafScale::Custom { width, height }, None) => Some((width as int, height as int)),
        _ => None,
    }
}

/// A scale dimension as the tool spells it: `-1` or the number itself.
pub open spec fn dim_str(v: int) -> Seq<char> {
    if v < 0 {
        "-1"@
    } else {
        dec_str(v as nat)
    }
}

/// The scale filter step, with trailing separator, or nothing.
pub open spec fn spec_scale_step(sc: Option<(int, int)>) -> Seq<char> {
    match sc {
        Some((w, h)) => "scale="@ + dim_str(w) + ":"@ + dim_str(h) + ":flags=bicubic,"@,
        None => Seq::empty(),
    }
}

/// The pixel-format conversion step, with trailing separator, or nothing.
pub open spec fn spec_format_step(pix: Option<PixelFormat>) -> Seq<char> {
    match pix {
        Some(p) => "format="@ + p.spec_name() + ","@,
        None => Seq::empty(),
    }
}

/// The reference stream's own filter, given a trailing separator, or
/// nothing.
pub open spec fn spec_ref_step(refvf: Option<Seq<char>>) -> Seq<char> {
    match refvf {
        Some(v) => if seq_ends_with(v, ","@) {
            v
        } else {
            v + ","@
        },
        None => Seq::empty(),
    }
}

/// The whole filter-graph expression for a comparison of a distorted
/// stream (input 0) against a reference (input 1): both streams receive
/// the format conversion and scale steps and a timestamp reset, the
/// reference its own filter, and both feed the quality filter carrying
/// the effective arguments, with a model override appended when a stream
/// larger than 2560x1440 meets arguments naming no model.
pub open spec fn spec_lavfi(
    cfg: Vmaf,
    res: Option<(u32, u32)>,
    pix: Option<PixelFormat>,
    refvf: Option<Seq<char>>,
    nthreads: nat,
) -> Seq<char> {
    let args = spec_effective_args(cfg.vmaf_args.deep_view(), nthreads);
    let base = "libvmaf=shortest=true:ts_sync_mode=nearest:"@ + join_sep(args, ':');
    let model0 = spec_model_from_args(args);
    let promote = model0 is None && match res {
        Some((w, h)) => w > 2560 && h > 1440,
        None => false,
    };
    let body = if promote {
        base + ":model=version=vmaf_4k_v0.6.1"@
    } else {
        base
    };
    let model = match model0 {
        Some(m) => m,
        None => if promote {
            VmafModel::Vmaf4K
        } else {
            VmafModel::Vmaf1K
        },
    };
    let fmt = spec_format_step(pix);
    let scale = spec_scale_step(spec_vf_scale(cfg.vmaf_scale, model, res));
    "[0:v]"@ + fmt + scale + "setpts=PTS-STARTPTS,settb=AVTB[dis];[1:v]"@ + fmt + spec_ref_step(
        refvf,
    ) + scale + "setpts=PTS-STARTPTS,settb=AVTB[ref];[dis][ref]"@ + body
}

impl Vmaf {
    /// The raw arguments with a thread count appended when none mentions
    /// one.
    fn args_with_threads(&self, n_threads: usize) -> (r: Vec<String>)
        ensures
            r.deep_view() == spec_effective_args(self.vmaf_args.deep_view(), n_threads as nat),
    {
        let ghost dv = self.vmaf_args.deep_view();
        let mut out: Vec<String> = Vec::new();
        let mut any: bool = false;
        let mut i: usize = 0;
        while i < self.vmaf_args.len()
            invariant
                dv == self.vmaf_args.deep_view(),
                dv.len() == self.vmaf_args.len(),
                i <= self.vmaf_args.len(),
                out.deep_view() =~= dv.subrange(0, i as int),
                any == exists|j: int| 0 <= j < i && mentions_threads(#[trigger] dv[j]),
            decreases self.vmaf_args.len() - i,
        {
            let a = &self.vmaf_args[i];
            proof {
                assert(self.vmaf_args@[i as int]@ == dv[i as int]);
            }
            if str_contains(a.as_str(), "n_threads") {
                any = true;
            }
            crate::strutil::push_string(&mut out, a.clone());
            proof {
                assert(out.deep_view() =~= dv.subrange(0, i + 1));
            }
            i += 1;
        }
        proof {
            assert(dv.subrange(0, dv.len() as int) =~= dv);
            assert(any == spec_any_threads(dv));
        }
        if !any {
            let mut t = String::from_str("n_threads=");
            let num = u64_to_string(n_threads as u64);
            t.append(num.as_str());
            crate::strutil::push_string(&mut out, t);
        }
        out
    }

    /// The scale step to apply, as [`spec_vf_scale`] describes.
    fn vf_scale(&self, model: VmafModel, distorted_res: Option<(u32, u32)>) -> (r: Option<
        (i64, i64),
    >)
        ensures
            match r {
                Some((w, h)) => spec_vf_scale(self.vmaf_scale, model, distorted_res) == Some(
                    (w as int, h as int),
                ),
                None => spec_vf_scale(self.vmaf_scale, model, distorted_res) is None,
            },
    {
        match (self.vmaf_scale, distorted_res) {
            (VmafScale::Auto, Some((w, h))) => match model {
                VmafModel::Vmaf1K => if w < 1728 && h < 972 {
                    Some(minimally_scale((w, h), (1920, 1080)))
                } else {
                    None
                },
                VmafModel::Vmaf4K => if w < 3456 && h < 1944 {
                    Some(minimally_scale((w, h), (3840, 2160)))
                } else {
                    None
                },
                VmafModel::Custom => None,
            },
            (VmafScale::Custom { width, height }, Some((w, h))) => Some(
                minimally_scale((w, h), (width, height)),
            ),
            (VmafScale::Custom { width, height }, None) => Some((width as i64, height as i64)),
            _ => None,
        }
    }

    /// Build the filter-graph expression for calculating the quality of a
    /// distorted stream against a reference, as [`spec_lavfi`] describes.
    /// `n_threads` is the available parallelism, used when no argument
    /// sets a thread count.
    pub fn ffmpeg_lavfi(
        &self,
        distorted_res: Option<(u32, u32)>,
        pix_fmt: Option<PixelFormat>,
        ref_vfilter: Option<&str>,
        n_threads: usize,
    ) -> (r: String)
        ensures
            r@ == spec_lavfi(
                *self,
                distorted_res,
                pix_fmt,
                match ref_vfilter {
                    Some(v) => Some(v@),
                    None => None,
                },
                n_threads as nat,
            ),
    {
        let args = self.args_with_threads(n_threads);
        let ghost eff = args.deep_view();

        let joined = join_colon(&args);
        let mut body = String::from_str("libvmaf=shortest=true:ts_sync_mode=nearest:");
        body.append(joined.as_str());

        let model0 = VmafModel::from_args(&args);
        let mut promote: bool = false;
        if model0.is_none() {
            if let Some((w, h)) = distorted_res {
                if w > 2560 && h > 1440 {
                    promote = true;
                    body.append(":model=version=vmaf_4k_v0.6.1");
                }
            }
        }
        let model = match model0 {
            Some(m) => m,
            None => if promote {
                VmafModel::Vmaf4K
            } else {
                VmafModel::Vmaf1K
            },
        };

        let mut fmt = String::new();
        if let Some(p) = pix_fmt {
            fmt.append("format=");
            fmt.append(p.name());
            fmt.append(",");
        }
        proof {
            assert(fmt@ =~= spec_format_step(pix_fmt));
        }

        let mut scale = String::new();
        match self.vf_scale(model, distorted_res) {
            Some((w, h)) => {
                scale.append("scale=");
                if w < 0 {
                    scale.append("-1");
                } else {
                    let ws = u64_to_string(w as u64);
                    scale.append(ws.as_str());
                }
                scale.append(":");
                if h < 0 {
                    scale.append("-1");
                } else {
                    let hs = u64_to_string(h as u64);
                    scale.append(hs.as_str());
                }
                scale.append(":flags=bicubic,");
            },
            None => {},
        }
        proof {
            assert(scale@ =~= spec_scale_step(
                spec_vf_scale(self.vmaf_scale, model, distorted_res),
            ));
        }

        let mut refv = String::new();
        match ref_vfilter {
            Some(v) => {
                refv.append(v);
                if !str_ends_with(v, ",") {
                    refv.append(",");
                }
            },
            None => {},
        }
        proof {
            assert(refv@ =~= spec_ref_step(
                match ref_vfilter {
                    Some(v) => Some(v@),
                    None => None,
                },
            ));
        }

        let mut out = String::from_str("[0:v]");
        out.append(fmt.as_str());
        out.append(scale.as_str());
        out.append("setpts=PTS-STARTPTS,settb=AVTB[dis];[1:v]");
        out.append(fmt.as_str());
        out.append(refv.as_str());
        out.append(scale.as_str());
        out.append("setpts=PTS-STARTPTS,settb=AVTB[ref];[dis][ref]");
        out.append(body.as_str());
        proof {
            assert(out@ =~= spec_lavfi(
                *self,
                distorted_res,
                pix_fmt,
                match ref_vfilter {
                    Some(v) => Some(v@),
                    None => None,
                },
                n_threads as nat,
            ));
        }
        out
    }
}

} // verus!
