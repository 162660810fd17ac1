//! The library's laws: properties that hold across functions, stated
//! over the same spec functions the functions' own contracts use.

use vstd::prelude::*;

use crate::encode::{
    fps_valid, spec_default_keyint_ms, spec_eff_fps, spec_err_gating, spec_flat_one,
    spec_flatten, spec_has_flag, spec_kf, spec_keyint_min_duration_ms, spec_out_args, spec_scd,
    spec_svt_params, Encode,
};
use crate::encoder::{spec_default_output_args, spec_encoder_kind, EncoderKind};
use crate::keyint::spec_duration_frames;
use crate::probe::Probe;
use crate::strutil::{
    dec_str, dec_value, is_dec_digit, join_sep, lemma_dec_str_digits, lemma_dec_value_of_dec_str,
    lemma_first_occurrence, lemma_join_sep_first, lemma_spec_find, occurs_at, seq_contains,
    spec_find,
};
use crate::vmaf::{
    is_model_arg, mentions_threads, spec_any_threads, spec_effective_args, spec_first_model,
    spec_format_step, spec_lavfi, spec_minimally_scale, spec_model_count, spec_model_from_args,
    spec_parse_vmaf_scale, spec_ref_step, spec_scale_step, spec_vf_scale,
    spec_vmaf_scale_spelling, Vmaf, VmafModel, VmafScale,
};

verus! {

// ---------------------------------------------------------------------
// supporting lemmas
// ---------------------------------------------------------------------

/// A flag found after appending defaults came from the arguments or from
/// the defaults.
proof fn lemma_append_defaults_sources(args: Seq<Seq<char>>, defaults: Seq<Seq<char>>, f: Seq<char>)
    requires
        spec_has_flag(crate::encode::spec_append_defaults(args, defaults), f),
    ensures
        spec_has_flag(args, f) || defaults.contains(f),
    decreases defaults.len(),
{
    if defaults.len() >= 2 {
        let a2 = if spec_has_flag(args, defaults[0]) {
            args
        } else {
            args + seq![defaults[0], defaults[1]]
        };
        lemma_append_defaults_sources(a2, defaults.skip(2), f);
        if spec_has_flag(a2, f) {
            let i = choose|i: int| 0 <= i < a2.len() && a2[i] == f;
            if i < args.len() {
                assert(spec_has_flag(args, f));
            } else {
                assert(defaults.contains(f));
            }
        }
        if defaults.skip(2).contains(f) {
            let i = choose|i: int| 0 <= i < defaults.skip(2).len() && defaults.skip(2)[i] == f;
            assert(defaults[i + 2] == f);
        }
    }
}

/// Appending defaults only extends the argument list.
proof fn lemma_append_defaults_prefix(args: Seq<Seq<char>>, defaults: Seq<Seq<char>>)
    ensures
        crate::encode::spec_append_defaults(args, defaults).len() >= args.len(),
        forall|k: int| 0 <= k < args.len() ==> #[trigger] crate::encode::spec_append_defaults(
            args,
            defaults,
        )[k] == args[k],
    decreases defaults.len(),
{
    if defaults.len() >= 2 {
        let a2 = if spec_has_flag(args, defaults[0]) {
            args
        } else {
            args + seq![defaults[0], defaults[1]]
        };
        lemma_append_defaults_prefix(a2, defaults.skip(2));
    }
}

/// The parameter-key flag spelled out: the dash and the key.
proof fn lemma_params_flag_shape()
    ensures
        "-svtav1-params"@ =~= "-"@ + "svtav1-params"@,
        "-svtav1-params"@.len() == 14,
        "svtav1-params"@.len() == 13,
        "-"@.len() == 1,
{
    reveal_strlit("-svtav1-params");
    reveal_strlit("svtav1-params");
    reveal_strlit("-");
}

/// Flattening arguments free of the parameter key yields no
/// parameter-key flag token.
proof fn lemma_flatten_no_params_flag(args: Seq<Seq<char>>)
    requires
        forall|i: int| 0 <= i < args.len() ==> !seq_contains(
            #[trigger] args[i],
            "svtav1-params"@,
        ),
    ensures
        !spec_has_flag(spec_flatten(args), "-svtav1-params"@),
    decreases args.len(),
{
    lemma_params_flag_shape();
    let key = "svtav1-params"@;
    let t = "-svtav1-params"@;
    if args.len() > 0 {
        assert(forall|i: int|
            0 <= i < args.drop_last().len() ==> !seq_contains(
                #[trigger] args.drop_last()[i],
                key,
            ));
        lemma_flatten_no_params_flag(args.drop_last());
        let a = args.last();
        let head = spec_flatten(args.drop_last());
        if spec_has_flag(spec_flatten(args), t) {
            let i = choose|i: int|
                0 <= i < spec_flatten(args).len() && spec_flatten(args)[i] == t;
            if i < head.len() {
                assert(spec_has_flag(head, t));
            } else {
                let tok = spec_flat_one(a)[i - head.len()];
                assert(tok == t);
                lemma_spec_find(a, '=');
                let f = spec_find(a, '=');
                if f >= 0 {
                    if i - head.len() == 0 {
                        // the flag token: `-name` with name the key
                        assert(("-"@ + a.subrange(0, f)).subrange(1, 1 + f) =~= a.subrange(
                            0,
                            f,
                        ));
                        assert(("-"@ + key).subrange(1, 1 + key.len() as int) =~= key);
                        assert(a.subrange(0, f) == key);
                        assert(occurs_at(a, key, 0)) by {
                            assert(a.subrange(0, key.len() as int) == key);
                        }
                        assert(seq_contains(a, key));
                    } else {
                        // the value token happens to spell the flag
                        assert(a.subrange(f + 1, a.len() as int) == t);
                        assert(a.len() == f + 15);
                        assert(occurs_at(a, key, f + 2)) by {
                            assert(a.subrange(f + 2, f + 15) =~= a.subrange(
                                f + 1,
                                a.len() as int,
                            ).subrange(1, 14));
                            assert(t.subrange(1, 14) =~= key);
                        }
                        assert(seq_contains(a, key));
                    }
                } else {
                    // a passthrough token spelling the flag
                    assert(a == t);
                    assert(occurs_at(a, key, 1)) by {
                        assert(a.subrange(1, 14) =~= key);
                    }
                    assert(seq_contains(a, key));
                }
            }
        }
    }
}

/// A decimal rendering is never a dash-led flag.
proof fn lemma_dec_str_not_flag(n: nat, flag: Seq<char>)
    requires
        flag.len() > 0,
        flag[0] == '-',
    ensures
        dec_str(n) != flag,
{
    lemma_dec_str_digits(n);
    if dec_str(n) == flag {
        assert(is_dec_digit(dec_str(n)[0]));
        assert(dec_str(n)[0] == '-');
        assert(('-' as u32) == 45);
    }
}

/// The codec-parameter pair appended for the default family carries no
/// `-g` flag.
proof fn lemma_svt_pair_not_g(scd: bool, svt_args: Seq<Seq<char>>)
    ensures
        "-svtav1-params"@ != "-g"@,
        join_sep(spec_svt_params(scd, svt_args), ':') != "-g"@,
{
    reveal_strlit("-svtav1-params");
    reveal_strlit("-g");
    reveal_strlit("scd=1");
    reveal_strlit("scd=0");
    assert("-svtav1-params"@.len() == 14);
    assert("-g"@.len() == 2);
    let parts = spec_svt_params(scd, svt_args);
    assert(parts[0] == if scd {
        "scd=1"@
    } else {
        "scd=0"@
    });
    lemma_join_sep_first(parts, ':');
    let j = join_sep(parts, ':');
    if j == "-g"@ {
        assert(j[0] == parts[0][0]);
        assert(parts[0][0] == 's');
        assert("-g"@[0] == '-');
    }
}

/// Where the `-g` flag can stand in the resolved output arguments: only
/// carried over from the flattened user arguments, or appended by the
/// resolver itself with the resolved interval after it.
proof fn lemma_out_args_g(cfg: Encode, probe: Probe)
    requires
        !spec_has_flag(spec_flatten(cfg.enc_args.deep_view()), "-g"@),
    ensures
        match spec_kf(cfg, probe) {
            Some(n) => exists|i: int|
                0 <= i && i + 1 < spec_out_args(cfg, probe).len() && #[trigger] spec_out_args(
                    cfg,
                    probe,
                )[i] == "-g"@ && spec_out_args(cfg, probe)[i + 1] == dec_str(n as nat),
            None => !spec_has_flag(spec_out_args(cfg, probe), "-g"@),
        },
{
    reveal_strlit("-g");
    reveal_strlit("-b:v");
    reveal_strlit("0");
    reveal_strlit("-look_ahead");
    reveal_strlit("1");
    reveal_strlit("-extbrc");
    reveal_strlit("-look_ahead_depth");
    reveal_strlit("40");
    let kind = spec_encoder_kind(cfg.encoder.name@);
    let kf = spec_kf(cfg, probe);
    let scd = spec_scd(cfg.scd, cfg.keyint, kf);
    let flat = spec_flatten(cfg.enc_args.deep_view());
    let with_params = if kind == EncoderKind::SvtAv1 {
        flat + seq![
            "-svtav1-params"@,
            join_sep(spec_svt_params(scd, cfg.svt_args.deep_view()), ':'),
        ]
    } else {
        flat
    };
    lemma_svt_pair_not_g(scd, cfg.svt_args.deep_view());
    assert(!spec_has_flag(with_params, "-g"@)) by {
        if spec_has_flag(with_params, "-g"@) {
            let i = choose|i: int| 0 <= i < with_params.len() && with_params[i] == "-g"@;
            if i < flat.len() {
                assert(spec_has_flag(flat, "-g"@));
            }
        }
    }
    let defaults = spec_default_output_args(kind);
    assert(!defaults.contains("-g"@)) by {
        if defaults.contains("-g"@) {
            let i = choose|i: int| 0 <= i < defaults.len() && defaults[i] == "-g"@;
            assert("-b:v"@.len() == 4 && "0"@.len() == 1 && "-g"@.len() == 2);
            assert("-look_ahead"@.len() == 11 && "1"@.len() == 1 && "-extbrc"@.len() == 7
                && "-look_ahead_depth"@.len() == 17 && "40"@.len() == 2);
            assert("40"@[0] == '4' && "-g"@[0] == '-');
        }
    }
    match kf {
        Some(n) => {
            let with_g = with_params + seq!["-g"@, dec_str(n as nat)];
            lemma_append_defaults_prefix(with_g, defaults);
            assert(spec_out_args(cfg, probe)[with_params.len() as int] == "-g"@);
            assert(spec_out_args(cfg, probe)[with_params.len() as int + 1] == dec_str(n as nat));
        },
        None => {
            if spec_has_flag(spec_out_args(cfg, probe), "-g"@) {
                lemma_append_defaults_sources(with_params, defaults, "-g"@);
            }
        },
    }
}

// ---------------------------------------------------------------------
// laws of the encode argument resolver
// ---------------------------------------------------------------------

/// For an encoder outside the default family, no codec-specific
/// parameter flag is ever emitted among the resolved output arguments,
/// and encoder-specific extra arguments are rejected. (A caller-supplied
/// argument that itself spells the parameter key is refused or excluded
/// here: the hypothesis rules the key's spelling out of the generic
/// arguments.)
pub proof fn lemma_non_default_family_no_params(cfg: Encode, probe: Probe)
    requires
        spec_encoder_kind(cfg.encoder.name@) != EncoderKind::SvtAv1,
        forall|i: int| 0 <= i < cfg.enc_args.deep_view().len() ==> !seq_contains(
            #[trigger] cfg.enc_args.deep_view()[i],
            "svtav1-params"@,
        ),
    ensures
        !spec_has_flag(spec_out_args(cfg, probe), "-svtav1-params"@),
        cfg.svt_args.deep_view().len() > 0 ==> spec_err_gating(cfg),
{
    reveal_strlit("-svtav1-params");
    reveal_strlit("-g");
    reveal_strlit("-b:v");
    reveal_strlit("0");
    reveal_strlit("-look_ahead");
    reveal_strlit("1");
    reveal_strlit("-extbrc");
    reveal_strlit("-look_ahead_depth");
    reveal_strlit("40");
    let kind = spec_encoder_kind(cfg.encoder.name@);
    let t = "-svtav1-params"@;
    let flat = spec_flatten(cfg.enc_args.deep_view());
    lemma_flatten_no_params_flag(cfg.enc_args.deep_view());
    let kf = spec_kf(cfg, probe);
    let with_g = match kf {
        Some(n) => if !spec_has_flag(flat, "-g"@) {
            flat + seq!["-g"@, dec_str(n as nat)]
        } else {
            flat
        },
        None => flat,
    };
    assert(!spec_has_flag(with_g, t)) by {
        if spec_has_flag(with_g, t) {
            let i = choose|i: int| 0 <= i < with_g.len() && with_g[i] == t;
            if i < flat.len() {
                assert(spec_has_flag(flat, t));
            } else {
                assert(with_g[i] == "-g"@ || with_g[i] == dec_str(kf->0 as nat));
                assert("-g"@.len() == 2 && t.len() == 14);
                lemma_dec_str_not_flag(kf->0 as nat, t);
            }
        }
    }
    let defaults = spec_default_output_args(kind);
    assert(!defaults.contains(t)) by {
        if defaults.contains(t) {
            let i = choose|i: int| 0 <= i < defaults.len() && defaults[i] == t;
            assert("-b:v"@.len() == 4 && "0"@.len() == 1 && t.len() == 14);
            assert("-look_ahead"@.len() == 11 && "1"@.len() == 1 && "-extbrc"@.len() == 7
                && "-look_ahead_depth"@.len() == 17 && "40"@.len() == 2);
        }
    }
    if spec_has_flag(spec_out_args(cfg, probe), t) {
        lemma_append_defaults_sources(with_g, defaults, t);
    }
}

/// For a probed duration of at least three minutes, with no explicit
/// interval and no explicit scene-change request and a resolvable frame
/// rate: scene-change detection is enabled, the ten-second default
/// interval is applied, and the `-g` flag with the rounded frame count
/// stands among the resolved output arguments.
pub proof fn lemma_long_input_default_interval(cfg: Encode, probe: Probe)
    requires
        cfg.keyint is None,
        cfg.scd is None,
        match probe.duration_ms {
            Some(d) => d >= spec_keyint_min_duration_ms(),
            None => false,
        },
        fps_valid(spec_eff_fps(cfg, probe)),
        !spec_has_flag(spec_flatten(cfg.enc_args.deep_view()), "-g"@),
    ensures
        spec_scd(cfg.scd, cfg.keyint, spec_kf(cfg, probe)),
        spec_kf(cfg, probe) == Some(
            spec_duration_frames(
                spec_default_keyint_ms(),
                spec_eff_fps(cfg, probe)->Some_0.0,
                spec_eff_fps(cfg, probe)->Some_0.1,
            ),
        ),
        exists|i: int|
            0 <= i && i + 1 < spec_out_args(cfg, probe).len() && #[trigger] spec_out_args(
                cfg,
                probe,
            )[i] == "-g"@ && spec_out_args(cfg, probe)[i + 1] == dec_str(
                spec_kf(cfg, probe)->0 as nat,
            ),
{
    lemma_out_args_g(cfg, probe);
}

/// For a probed duration under three minutes with no explicit interval:
/// no interval is resolved, no `-g` flag is emitted, and scene-change
/// detection is on only when explicitly requested.
pub proof fn lemma_short_input_no_interval(cfg: Encode, probe: Probe)
    requires
        cfg.keyint is None,
        !(match probe.duration_ms {
            Some(d) => d >= spec_keyint_min_duration_ms(),
            None => false,
        }),
        !spec_has_flag(spec_flatten(cfg.enc_args.deep_view()), "-g"@),
    ensures
        spec_kf(cfg, probe) is None,
        spec_scd(cfg.scd, cfg.keyint, spec_kf(cfg, probe)) == (cfg.scd == Some(true)),
        !spec_has_flag(spec_out_args(cfg, probe), "-g"@),
{
    lemma_out_args_g(cfg, probe);
}

// ---------------------------------------------------------------------
// laws of the quality filter-graph builder
// ---------------------------------------------------------------------

/// The appended thread-count argument names no model.
proof fn lemma_threads_arg_not_model(n: nat)
    ensures
        !is_model_arg("n_threads="@ + dec_str(n)),
        mentions_threads("n_threads="@ + dec_str(n)),
{
    reveal_strlit("n_threads=");
    reveal_strlit("model");
    let s = "n_threads="@ + dec_str(n);
    lemma_dec_str_digits(n);
    assert forall|k: int| 0 <= k < s.len() implies s[k] != 'm' by {
        if k < 10 {
            assert(s[k] == "n_threads="@[k]);
            assert("n_threads="@[0] == 'n' && "n_threads="@[1] == '_' && "n_threads="@[2] == 't'
                && "n_threads="@[3] == 'h' && "n_threads="@[4] == 'r' && "n_threads="@[5] == 'e'
                && "n_threads="@[6] == 'a' && "n_threads="@[7] == 'd' && "n_threads="@[8] == 's'
                && "n_threads="@[9] == '=');
        } else {
            assert(is_dec_digit(dec_str(n)[k - 10]));
            assert(('m' as u32) == 109);
        }
    }
    if is_model_arg(s) {
        let i = choose|i: int| occurs_at(s, "model"@, i);
        assert(s.subrange(i, i + 5)[0] == s[i]);
        assert("model"@[0] == 'm');
    }
    assert(occurs_at(s, "n_threads"@, 0)) by {
        reveal_strlit("n_threads");
        assert(s.subrange(0, 9) =~= "n_threads"@);
    }
}

/// Appending an argument naming no model leaves the selected model
/// unchanged.
proof fn lemma_model_push_non_model(args: Seq<Seq<char>>, x: Seq<char>)
    requires
        !is_model_arg(x),
    ensures
        spec_model_count(args.push(x)) == spec_model_count(args),
        spec_first_model(args.push(x)) == spec_first_model(args),
        spec_model_from_args(args.push(x)) == spec_model_from_args(args),
    decreases args.len(),
{
    crate::strutil::lemma_filter_push(args, x, |a: Seq<char>| is_model_arg(a));
    if args.len() == 0 {
        assert(args.push(x)[0] == x);
        assert(args.push(x).drop_first() =~= Seq::<Seq<char>>::empty());
        assert(spec_first_model(args.push(x).drop_first()) == Seq::<char>::empty());
        assert(spec_first_model(args.push(x)) == Seq::<char>::empty());
        assert(spec_first_model(args) == Seq::<char>::empty());
    } else {
        assert(args.push(x)[0] == args[0]);
        if is_model_arg(args[0]) {
            assert(spec_first_model(args.push(x)) == args[0]);
            assert(spec_first_model(args) == args[0]);
        } else {
            assert(args.push(x).drop_first() =~= args.drop_first().push(x));
            lemma_model_push_non_model(args.drop_first(), x);
            assert(spec_first_model(args.push(x)) == spec_first_model(
                args.push(x).drop_first(),
            ));
            assert(spec_first_model(args) == spec_first_model(args.drop_first()));
        }
    }
}

/// The arguments select the same model after the thread-count default is
/// appended.
proof fn lemma_effective_model(args: Seq<Seq<char>>, n: nat)
    ensures
        spec_model_from_args(spec_effective_args(args, n)) == spec_model_from_args(args),
{
    if !spec_any_threads(args) {
        lemma_threads_arg_not_model(n);
        lemma_model_push_non_model(args, "n_threads="@ + dec_str(n));
    }
}

/// Arguments naming no model select none.
proof fn lemma_no_model_args(args: Seq<Seq<char>>)
    requires
        forall|i: int| 0 <= i < args.len() ==> !is_model_arg(#[trigger] args[i]),
    ensures
        spec_model_from_args(args) is None,
{
    args.lemma_all_neg_filter_empty(|a: Seq<char>| is_model_arg(a));
}

/// On fixed inputs — resolution absent, pixel format absent, no
/// reference filter — and no extra arguments, the filter graph is always
/// exactly two format-free, scale-free branches joined by the quality
/// filter with its two fixed synchronisation options and the appended
/// thread count.
pub proof fn lemma_lavfi_fixed_inputs(cfg: Vmaf, n: nat)
    requires
        cfg.vmaf_args.deep_view().len() == 0,
        cfg.vmaf_scale == VmafScale::Auto,
    ensures
        spec_lavfi(cfg, None, None, None, n) == "[0:v]"@
            + "setpts=PTS-STARTPTS,settb=AVTB[dis];[1:v]"@
            + "setpts=PTS-STARTPTS,settb=AVTB[ref];[dis][ref]"@
            + "libvmaf=shortest=true:ts_sync_mode=nearest:"@ + "n_threads="@ + dec_str(n),
{
    let args0 = cfg.vmaf_args.deep_view();
    let t = "n_threads="@ + dec_str(n);
    assert(!spec_any_threads(args0));
    let eff = spec_effective_args(args0, n);
    assert(eff =~= seq![t]);
    assert(join_sep(eff, ':') == t);
    lemma_no_model_args(args0);
    lemma_effective_model(args0, n);
    assert(spec_model_from_args(eff) is None);
    assert(spec_format_step(None) == Seq::<char>::empty());
    assert(spec_ref_step(None) == Seq::<char>::empty());
    assert(spec_vf_scale(VmafScale::Auto, VmafModel::Vmaf1K, None) is None);
    assert(spec_lavfi(cfg, None, None, None, n) =~= "[0:v]"@
        + "setpts=PTS-STARTPTS,settb=AVTB[dis];[1:v]"@
        + "setpts=PTS-STARTPTS,settb=AVTB[ref];[dis][ref]"@
        + "libvmaf=shortest=true:ts_sync_mode=nearest:"@ + "n_threads="@ + dec_str(n));
}

/// A distorted resolution of 1280x720 with no model named among the
/// arguments: the default model's thresholds apply, both branches get
/// exactly the `scale=1920:-1:flags=bicubic` step, and no model-override
/// token is appended.
pub proof fn lemma_auto_upscale_to_1080p(cfg: Vmaf, pix: Option<crate::pixel_format::PixelFormat>, refv: Option<Seq<char>>, n: nat)
    requires
        cfg.vmaf_scale == VmafScale::Auto,
        forall|i: int| 0 <= i < cfg.vmaf_args.deep_view().len() ==> !is_model_arg(
            #[trigger] cfg.vmaf_args.deep_view()[i],
        ),
    ensures
        spec_lavfi(cfg, Some((1280u32, 720u32)), pix, refv, n) == "[0:v]"@ + spec_format_step(pix)
            + ("scale="@ + dec_str(1920) + ":"@ + "-1"@ + ":flags=bicubic,"@)
            + "setpts=PTS-STARTPTS,settb=AVTB[dis];[1:v]"@ + spec_format_step(pix) + spec_ref_step(
            refv,
        ) + ("scale="@ + dec_str(1920) + ":"@ + "-1"@ + ":flags=bicubic,"@)
            + "setpts=PTS-STARTPTS,settb=AVTB[ref];[dis][ref]"@
            + ("libvmaf=shortest=true:ts_sync_mode=nearest:"@ + join_sep(
            spec_effective_args(cfg.vmaf_args.deep_view(), n),
            ':',
        )),
{
    let args0 = cfg.vmaf_args.deep_view();
    let eff = spec_effective_args(args0, n);
    lemma_no_model_args(args0);
    lemma_effective_model(args0, n);
    assert(spec_model_from_args(eff) is None);
    assert(spec_minimally_scale(1280, 720, 1920, 1080) == (1920int, -1int)) by {
        assert(720 * 1920 == 1382400) by (nonlinear_arith);
        assert(1280 * 1080 == 1382400) by (nonlinear_arith);
    }
    assert(spec_vf_scale(VmafScale::Auto, VmafModel::Vmaf1K, Some((1280u32, 720u32))) == Some(
        (1920int, -1int),
    ));
    assert(spec_scale_step(Some((1920int, -1int))) =~= "scale="@ + dec_str(1920) + ":"@ + "-1"@
        + ":flags=bicubic,"@);
    assert(spec_lavfi(cfg, Some((1280u32, 720u32)), pix, refv, n) =~= "[0:v]"@ + spec_format_step(
        pix,
    ) + ("scale="@ + dec_str(1920) + ":"@ + "-1"@ + ":flags=bicubic,"@)
        + "setpts=PTS-STARTPTS,settb=AVTB[dis];[1:v]"@ + spec_format_step(pix) + spec_ref_step(
        refv,
    ) + ("scale="@ + dec_str(1920) + ":"@ + "-1"@ + ":flags=bicubic,"@)
        + "setpts=PTS-STARTPTS,settb=AVTB[ref];[dis][ref]"@
        + ("libvmaf=shortest=true:ts_sync_mode=nearest:"@ + join_sep(eff, ':')));
}

/// A distorted resolution of 3840x2160 with no model named among the
/// arguments: the model-override token selecting the 4k model is
/// appended and no scaling step is emitted.
pub proof fn lemma_auto_4k_model(cfg: Vmaf, pix: Option<crate::pixel_format::PixelFormat>, refv: Option<Seq<char>>, n: nat)
    requires
        cfg.vmaf_scale == VmafScale::Auto,
        forall|i: int| 0 <= i < cfg.vmaf_args.deep_view().len() ==> !is_model_arg(
            #[trigger] cfg.vmaf_args.deep_view()[i],
        ),
    ensures
        spec_lavfi(cfg, Some((3840u32, 2160u32)), pix, refv, n) == "[0:v]"@ + spec_format_step(pix)
            + "setpts=PTS-STARTPTS,settb=AVTB[dis];[1:v]"@ + spec_format_step(pix) + spec_ref_step(
            refv,
        ) + "setpts=PTS-STARTPTS,settb=AVTB[ref];[dis][ref]"@
            + ("libvmaf=shortest=true:ts_sync_mode=nearest:"@ + join_sep(
            spec_effective_args(cfg.vmaf_args.deep_view(), n),
            ':',
        ) + ":model=version=vmaf_4k_v0.6.1"@),
{
    let args0 = cfg.vmaf_args.deep_view();
    let eff = spec_effective_args(args0, n);
    lemma_no_model_args(args0);
    lemma_effective_model(args0, n);
    assert(spec_model_from_args(eff) is None);
    assert(spec_vf_scale(VmafScale::Auto, VmafModel::Vmaf4K, Some((3840u32, 2160u32))) is None);
    assert(spec_lavfi(cfg, Some((3840u32, 2160u32)), pix, refv, n) =~= "[0:v]"@ + spec_format_step(
        pix,
    ) + "setpts=PTS-STARTPTS,settb=AVTB[dis];[1:v]"@ + spec_format_step(pix) + spec_ref_step(refv)
        + "setpts=PTS-STARTPTS,settb=AVTB[ref];[dis][ref]"@
        + ("libvmaf=shortest=true:ts_sync_mode=nearest:"@ + join_sep(eff, ':')
        + ":model=version=vmaf_4k_v0.6.1"@));
}

/// Any argument naming a model suppresses the automatic model override,
/// whatever the resolution: the model the arguments select is settled,
/// so the override branch never fires.
pub proof fn lemma_user_model_suppresses_override(cfg: Vmaf, n: nat)
    requires
        exists|i: int|
            0 <= i < cfg.vmaf_args.deep_view().len() && is_model_arg(
                #[trigger] cfg.vmaf_args.deep_view()[i],
            ),
    ensures
        spec_model_from_args(spec_effective_args(cfg.vmaf_args.deep_view(), n)) is Some,
{
    let args0 = cfg.vmaf_args.deep_view();
    let i = choose|i: int| 0 <= i < args0.len() && is_model_arg(#[trigger] args0[i]);
    Seq::lemma_filter_contains(args0, |a: Seq<char>| is_model_arg(a), i);
    assert(spec_model_count(args0) >= 1) by {
        assert(args0.filter(|a: Seq<char>| is_model_arg(a)).contains(args0[i]));
    }
    lemma_effective_model(args0, n);
}

/// A user-supplied custom model suppresses both the automatic scaling
/// and the automatic model override, whatever the resolution.
pub proof fn lemma_user_model_suppresses_auto(
    cfg: Vmaf,
    res: Option<(u32, u32)>,
    pix: Option<crate::pixel_format::PixelFormat>,
    refv: Option<Seq<char>>,
    n: nat,
)
    requires
        cfg.vmaf_scale == VmafScale::Auto,
        spec_model_from_args(cfg.vmaf_args.deep_view()) == Some(VmafModel::Custom),
    ensures
        spec_lavfi(cfg, res, pix, refv, n) == "[0:v]"@ + spec_format_step(pix)
            + "setpts=PTS-STARTPTS,settb=AVTB[dis];[1:v]"@ + spec_format_step(pix) + spec_ref_step(
            refv,
        ) + "setpts=PTS-STARTPTS,settb=AVTB[ref];[dis][ref]"@
            + ("libvmaf=shortest=true:ts_sync_mode=nearest:"@ + join_sep(
            spec_effective_args(cfg.vmaf_args.deep_view(), n),
            ':',
        )),
{
    let args0 = cfg.vmaf_args.deep_view();
    let eff = spec_effective_args(args0, n);
    lemma_effective_model(args0, n);
    assert(spec_model_from_args(eff) == Some(VmafModel::Custom));
    assert(spec_vf_scale(VmafScale::Auto, VmafModel::Custom, res) is None);
    assert(spec_lavfi(cfg, res, pix, refv, n) =~= "[0:v]"@ + spec_format_step(pix)
        + "setpts=PTS-STARTPTS,settb=AVTB[dis];[1:v]"@ + spec_format_step(pix) + spec_ref_step(
        refv,
    ) + "setpts=PTS-STARTPTS,settb=AVTB[ref];[dis][ref]"@
        + ("libvmaf=shortest=true:ts_sync_mode=nearest:"@ + join_sep(eff, ':')));
}

/// Rendering a scaling policy and parsing it back gives the policy:
/// the spelling round-trips.
pub proof fn lemma_scale_spelling_round_trip(v: VmafScale)
    ensures
        spec_parse_vmaf_scale(spec_vmaf_scale_spelling(v)) == Some(v),
{
    reveal_strlit("none");
    reveal_strlit("auto");
    reveal_strlit("x");
    match v {
        VmafScale::Disabled => {
        },
        VmafScale::Auto => {
            assert("auto"@ != "none"@) by {
                if "auto"@ == "none"@ {
                    assert("auto"@[0] == 'a' && "none"@[0] == 'n');
                }
            }
        },
        VmafScale::Custom { width, height } => {
            let a = dec_str(width as nat);
            let b = dec_str(height as nat);
            let s = spec_vmaf_scale_spelling(v);
            lemma_dec_value_of_dec_str(width as nat);
            lemma_dec_value_of_dec_str(height as nat);
            lemma_dec_str_digits(width as nat);
            lemma_dec_str_digits(height as nat);
            assert(a.len() >= 1 && b.len() >= 1);
            assert(s[0] == a[0]);
            assert(s != "none"@) by {
                if s == "none"@ {
                    assert(is_dec_digit(a[0]));
                    assert("none"@[0] == 'n' && ('n' as u32) == 110);
                }
            }
            assert(s != "auto"@) by {
                if s == "auto"@ {
                    assert(is_dec_digit(a[0]));
                    assert("auto"@[0] == 'a' && ('a' as u32) == 97);
                }
            }
            assert(s[a.len() as int] == 'x');
            assert forall|j: int| 0 <= j < a.len() implies s[j] != 'x' by {
                assert(s[j] == a[j]);
                assert(is_dec_digit(a[j]));
                assert(('x' as u32) == 120);
            }
            lemma_first_occurrence(s, 'x', a.len() as int);
            assert(s.subrange(0, a.len() as int) =~= a);
            assert(s.subrange(a.len() as int + 1, s.len() as int) =~= b);
            assert(dec_value(a) == width && dec_value(b) == height);
        },
    }
}

} // verus!
