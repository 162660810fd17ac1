//! Hardware decoder selection: mapping a detected codec to a decoder
//! name, and reading the external tool's capability output.

use vstd::prelude::*;

use crate::strutil::{
    lemma_filter_push, push_string, seq_contains, seq_starts_with, split_char, split_seq,
    str_contains, str_eq, str_starts_with,
};
use vstd::string::StringExecFns;

verus! {

/// The hardware decoder for a detected input codec, or `None` for a
/// codec without one.
pub open spec fn spec_auto_decoder(codec: Seq<char>) -> Option<Seq<char>> {
    if codec == "h264"@ {
        Some("h264_cuvid"@)
    } else if codec == "hevc"@ {
        Some("hevc_cuvid"@)
    } else if codec == "vp9"@ {
        Some("vp9_cuvid"@)
    } else {
        None
    }
}

/// Select the hardware decoder for a detected input codec. An
/// unrecognised codec selects none, and the hardware pipeline is then
/// skipped entirely.
pub fn auto_select_decoder(codec: &str) -> (r: Option<String>)
    ensures
        match r {
            Some(d) => spec_auto_decoder(codec@) == Some(d@),
            None => spec_auto_decoder(codec@) is None,
        },
{
    if str_eq(codec, "h264") {
        Some(String::from_str("h264_cuvid"))
    } else if str_eq(codec, "hevc") {
        Some(String::from_str("hevc_cuvid"))
    } else if str_eq(codec, "vp9") {
        Some(String::from_str("vp9_cuvid"))
    } else {
        None
    }
}

/// The whitespace-separated tokens of a list of space-separated pieces:
/// each piece is further cut at tabs, and empty pieces fall away.
pub open spec fn spec_tokens_of_parts(parts: Seq<Seq<char>>) -> Seq<Seq<char>>
    decreases parts.len(),
{
    if parts.len() == 0 {
        Seq::empty()
    } else {
        spec_tokens_of_parts(parts.drop_last()) + split_seq(parts.last(), '\t').filter(
            |t: Seq<char>| t.len() > 0,
        )
    }
}

/// The whitespace-separated tokens of a line: the maximal runs between
/// spaces and tabs.
pub open spec fn spec_tokens(line: Seq<char>) -> Seq<Seq<char>> {
    spec_tokens_of_parts(split_seq(line, ' '))
}

/// Cut a line into its whitespace-separated tokens.
fn tokens(line: &str) -> (r: Vec<String>)
    ensures
        r.deep_view() == spec_tokens(line@),
{
    let parts = split_char(line, ' ');
    let ghost pv = parts.deep_view();
    let mut out: Vec<String> = Vec::new();
    let mut i: usize = 0;
    while i < parts.len()
        invariant
            pv == parts.deep_view(),
            pv == split_seq(line@, ' '),
            pv.len() == parts.len(),
            i <= parts.len(),
            out.deep_view() == spec_tokens_of_parts(pv.subrange(0, i as int)),
        decreases parts.len() - i,
    {
        proof {
            assert(parts@[i as int]@ == pv[i as int]);
        }
        let sub = split_char(parts[i].as_str(), '\t');
        let ghost sv = sub.deep_view();
        let mut j: usize = 0;
        while j < sub.len()
            invariant
                sv == sub.deep_view(),
                sv == split_seq(pv[i as int], '\t'),
                i < pv.len(),
                sv.len() == sub.len(),
                j <= sub.len(),
                out.deep_view() == spec_tokens_of_parts(pv.subrange(0, i as int)) + sv.subrange(
                    0,
                    j as int,
                ).filter(|t: Seq<char>| t.len() > 0),
            decreases sub.len() - j,
        {
            let ghost prefix = sv.subrange(0, j as int);
            proof {
                assert(sub@[j as int]@ == sv[j as int]);
                assert(sv.subrange(0, j + 1) =~= prefix.push(sv[j as int]));
                lemma_filter_push(prefix, sv[j as int], |t: Seq<char>| t.len() > 0);
            }
            if !sub[j].as_str().is_empty() {
                push_string(&mut out, sub[j].clone());
            }
            j += 1;
        }
        proof {
            assert(sv.subrange(0, sv.len() as int) =~= sv);
            assert(pv.subrange(0, i + 1).drop_last() =~= pv.subrange(0, i as int));
            assert(pv.subrange(0, i + 1).last() == pv[i as int]);
            assert(out.deep_view() == spec_tokens_of_parts(pv.subrange(0, i + 1)));
        }
        i += 1;
    }
    proof {
        assert(pv.subrange(0, pv.len() as int) =~= pv);
    }
    out
}

/// What a capability line names: lines mentioning a hardware decoder
/// carry `_cuvid`, and the decoder name is the second token.
pub open spec fn spec_line_decoder(line: Seq<char>) -> Option<Seq<char>> {
    if seq_contains(line, "_cuvid"@) && spec_tokens(line).len() >= 2 {
        Some(spec_tokens(line)[1])
    } else {
        None
    }
}

/// The hardware decoders a capability listing names, in order.
pub open spec fn spec_decoder_list(lines: Seq<Seq<char>>) -> Seq<Seq<char>>
    decreases lines.len(),
{
    if lines.len() == 0 {
        Seq::empty()
    } else {
        let rest = spec_decoder_list(lines.drop_last());
        match spec_line_decoder(lines.last()) {
            Some(d) => rest.push(d),
            None => rest,
        }
    }
}

/// Read the hardware decoders out of the external tool's line-oriented
/// decoder listing: each line containing `_cuvid` names one, as its
/// second whitespace-separated token.
pub fn parse_cuda_decoders(text: &str) -> (r: Vec<String>)
    ensures
        r.deep_view() == spec_decoder_list(split_seq(text@, '\n')),
{
    let lines = split_char(text, '\n');
    let ghost lv = lines.deep_view();
    let mut out: Vec<String> = Vec::new();
    let mut i: usize = 0;
    while i < lines.len()
        invariant
            lv == lines.deep_view(),
            lv == split_seq(text@, '\n'),
            lv.len() == lines.len(),
            i <= lines.len(),
            out.deep_view() == spec_decoder_list(lv.subrange(0, i as int)),
        decreases lines.len() - i,
    {
        proof {
            assert(lines@[i as int]@ == lv[i as int]);
            assert(lv.subrange(0, i + 1).drop_last() =~= lv.subrange(0, i as int));
            assert(lv.subrange(0, i + 1).last() == lv[i as int]);
        }
        if str_contains(lines[i].as_str(), "_cuvid") {
            let toks = tokens(lines[i].as_str());
            if toks.len() >= 2 {
                proof {
                    assert(toks@[1]@ == toks.deep_view()[1]);
                }
                push_string(&mut out, toks[1].clone());
            }
        }
        i += 1;
    }
    proof {
        assert(lv.subrange(0, lv.len() as int) =~= lv);
    }
    out
}

/// Whether `name` is among the listed decoders.
pub fn decoder_available(decoders: &Vec<String>, name: &str) -> (r: bool)
    ensures
        r == decoders.deep_view().contains(name@),
{
    let ghost dv = decoders.deep_view();
    let mut i: usize = 0;
    while i < decoders.len()
        invariant
            dv == decoders.deep_view(),
            dv.len() == decoders.len(),
            i <= decoders.len(),
            forall|j: int| 0 <= j < i ==> dv[j] != name@,
        decreases decoders.len() - i,
    {
        proof {
            assert(decoders@[i as int]@ == dv[i as int]);
        }
        if str_eq(decoders[i].as_str(), name) {
            assert(dv.contains(name@));
            return true;
        }
        i += 1;
    }
    assert(!dv.contains(name@));
    false
}

/// The first token of a list that starts with `crop=`.
pub open spec fn spec_first_crop_tok(toks: Seq<Seq<char>>) -> Option<Seq<char>>
    decreases toks.len(),
{
    if toks.len() == 0 {
        None
    } else if seq_starts_with(toks[0], "crop="@) {
        Some(toks[0])
    } else {
        spec_first_crop_tok(toks.drop_first())
    }
}

/// When no token before `i` carries the prefix, the search may start at
/// `i`.
proof fn lemma_crop_tok_skip(toks: Seq<Seq<char>>, i: int)
    requires
        0 <= i <= toks.len(),
        forall|j: int| 0 <= j < i ==> !seq_starts_with(#[trigger] toks[j], "crop="@),
    ensures
        spec_first_crop_tok(toks) == spec_first_crop_tok(toks.skip(i)),
    decreases i,
{
    if i == 0 {
        assert(toks.skip(0) =~= toks);
    } else {
        lemma_crop_tok_skip(toks, i - 1);
        let tail = toks.skip(i - 1);
        assert(tail[0] == toks[i - 1]);
        assert(!seq_starts_with(tail[0], "crop="@));
        assert(tail.drop_first() =~= toks.skip(i));
    }
}

/// The crop token of a diagnostic stream: the last line containing
/// `crop=` supplies it, as its first whitespace-separated token starting
/// with `crop=`.
pub open spec fn spec_crop_of(lines: Seq<Seq<char>>) -> Option<Seq<char>>
    decreases lines.len(),
{
    if lines.len() == 0 {
        None
    } else if seq_contains(lines.last(), "crop="@) {
        spec_first_crop_tok(spec_tokens(lines.last()))
    } else {
        spec_crop_of(lines.drop_last())
    }
}

/// When no line from `k` on mentions a crop, the search may stop at `k`.
proof fn lemma_crop_take(lines: Seq<Seq<char>>, k: int)
    requires
        0 <= k <= lines.len(),
        forall|j: int| k <= j < lines.len() ==> !seq_contains(#[trigger] lines[j], "crop="@),
    ensures
        spec_crop_of(lines) == spec_crop_of(lines.take(k)),
    decreases lines.len() - k,
{
    if k < lines.len() {
        lemma_crop_take(lines, k + 1);
        let t = lines.take(k + 1);
        assert(t.last() == lines[k]);
        assert(!seq_contains(t.last(), "crop="@));
        assert(t.drop_last() =~= lines.take(k));
    } else {
        assert(lines.take(k) =~= lines);
    }
}

/// Read the crop rectangle token out of a crop-detection diagnostic
/// stream, as [`spec_crop_of`] describes.
pub fn parse_crop_detect(text: &str) -> (r: Option<String>)
    ensures
        match r {
            Some(t) => spec_crop_of(split_seq(text@, '\n')) == Some(t@),
            None => spec_crop_of(split_seq(text@, '\n')) is None,
        },
{
    let lines = split_char(text, '\n');
    let ghost lv = lines.deep_view();
    let mut k: usize = lines.len();
    while k > 0
        invariant
            lv == lines.deep_view(),
            lv == split_seq(text@, '\n'),
            lv.len() == lines.len(),
            k <= lines.len(),
            forall|j: int| k <= j < lv.len() ==> !seq_contains(#[trigger] lv[j], "crop="@),
        decreases k,
    {
        k = k - 1;
        proof {
            assert(lines@[k as int]@ == lv[k as int]);
        }
        if str_contains(lines[k].as_str(), "crop=") {
            proof {
                lemma_crop_take(lv, k + 1);
                assert(lv.take(k + 1).last() == lv[k as int]);
                assert(lv.take(k + 1).drop_last() =~= lv.take(k as int));
                assert(spec_crop_of(lv) == spec_first_crop_tok(spec_tokens(lv[k as int])));
            }
            let toks = tokens(lines[k].as_str());
            let ghost tv = toks.deep_view();
            let mut t: usize = 0;
            while t < toks.len()
                invariant
                    tv == toks.deep_view(),
                    tv.len() == toks.len(),
                    t <= toks.len(),
                    spec_crop_of(split_seq(text@, '\n')) == spec_first_crop_tok(tv),
                    forall|j: int| 0 <= j < t ==> !seq_starts_with(#[trigger] tv[j], "crop="@),
                decreases toks.len() - t,
            {
                proof {
                    assert(toks@[t as int]@ == tv[t as int]);
                }
                if str_starts_with(toks[t].as_str(), "crop=") {
                    proof {
                        lemma_crop_tok_skip(tv, t as int);
                        assert(tv.skip(t as int)[0] == tv[t as int]);
                    }
                    return Some(toks[t].clone());
                }
                t += 1;
            }
            proof {
                lemma_crop_tok_skip(tv, tv.len() as int);
                assert(tv.skip(tv.len() as int) =~= Seq::<Seq<char>>::empty());
            }
            return None;
        }
    }
    proof {
        lemma_crop_take(lv, 0);
        assert(lv.take(0) =~= Seq::<Seq<char>>::empty());
    }
    None
}

} // verus!
