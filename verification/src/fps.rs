//! Frame rates as exact rationals, and their parsing out of filter
//! expressions.

use vstd::prelude::*;

use crate::strutil::{
    all_dec_digits, dec_value, lemma_first_occurrence, lemma_no_occurrence, parse_u32,
    seq_starts_with, spec_find, spec_trim_spaces, split_char, split_once_char, split_seq, str_eq,
    str_starts_with, substring, trim_spaces,
};
use vstd::string::StrSliceExecFns;

verus! {

/// A frame rate, held exactly as the rational `num / den` frames per second.
///
/// A value with a zero numerator or denominator does not describe a frame
/// rate; consumers treat it as unresolvable.
#[derive(Clone, Copy, Debug, PartialEq, Eq, Structural)]
pub struct Fps {
    pub num: u32,
    pub den: u32,
}

impl Fps {
    /// Whether the value describes an actual (positive, finite) rate.
    pub open spec fn spec_valid(self) -> bool {
        self.num > 0 && self.den > 0
    }

    /// Whether the value describes an actual (positive, finite) rate.
    pub fn valid(&self) -> (r: bool)
        ensures
            r == self.spec_valid(),
    {
        self.num > 0 && self.den > 0
    }
}

/// `10^k`.
pub open spec fn pow10(k: nat) -> nat
    decreases k,
{
    if k == 0 {
        1
    } else {
        10 * pow10((k - 1) as nat)
    }
}

/// `10^k` for `k` up to six.
fn pow10_exec(k: usize) -> (r: u64)
    requires
        k <= 6,
    ensures
        r == pow10(k as nat),
        1 <= r <= 1000000,
{
    proof {
        assert(pow10(0) == 1);
        assert(pow10(1) == 10);
        assert(pow10(2) == 100);
        assert(pow10(3) == 1000);
        assert(pow10(4) == 10000);
        assert(pow10(5) == 100000);
        assert(pow10(6) == 1000000);
    }
    if k == 0 {
        1
    } else if k == 1 {
        10
    } else if k == 2 {
        100
    } else if k == 3 {
        1000
    } else if k == 4 {
        10000
    } else if k == 5 {
        100000
    } else {
        1000000
    }
}

/// The rational a frame-rate spelling denotes, or `None` when the spelling
/// is not one the external tool's `fps` filter understands. Accepted are
/// the named rates `film`, `pal`, `ntsc` and `ntsc_film`, a whole number,
/// a fraction `a/b`, and a decimal with up to six fractional digits; the
/// rate must be positive and its components must fit a machine word.
pub open spec fn spec_parse_fps(s: Seq<char>) -> Option<(int, int)> {
    if s == "film"@ {
        Some((24int, 1int))
    } else if s == "pal"@ {
        Some((25int, 1int))
    } else if s == "ntsc"@ {
        Some((30000int, 1001int))
    } else if s == "ntsc_film"@ {
        Some((24000int, 1001int))
    } else if spec_find(s, '/') >= 0 {
        let i = spec_find(s, '/');
        let a = s.subrange(0, i);
        let b = s.subrange(i + 1, s.len() as int);
        if a.len() > 0 && all_dec_digits(a) && 0 < dec_value(a) <= u32::MAX && b.len() > 0
            && all_dec_digits(b) && 0 < dec_value(b) <= u32::MAX {
            Some((dec_value(a) as int, dec_value(b) as int))
        } else {
            None
        }
    } else if spec_find(s, '.') >= 0 {
        let i = spec_find(s, '.');
        let a = s.subrange(0, i);
        let b = s.subrange(i + 1, s.len() as int);
        if a.len() > 0 && all_dec_digits(a) && b.len() > 0 && b.len() <= 6 && all_dec_digits(b)
            && 0 < dec_value(a) * pow10(b.len()) + dec_value(b) <= u32::MAX {
            Some(((dec_value(a) * pow10(b.len()) + dec_value(b)) as int, pow10(b.len()) as int))
        } else {
            None
        }
    } else {
        if s.len() > 0 && all_dec_digits(s) && 0 < dec_value(s) <= u32::MAX {
            Some((dec_value(s) as int, 1int))
        } else {
            None
        }
    }
}

/// Parse one frame-rate spelling, as [`spec_parse_fps`] describes.
pub fn parse_fps_value(s: &str) -> (r: Option<Fps>)
    ensures
        match r {
            Some(f) => spec_parse_fps(s@) == Some((f.num as int, f.den as int)),
            None => spec_parse_fps(s@) is None,
        },
{
    if str_eq(s, "film") {
        return Some(Fps { num: 24, den: 1 });
    }
    if str_eq(s, "pal") {
        return Some(Fps { num: 25, den: 1 });
    }
    if str_eq(s, "ntsc") {
        return Some(Fps { num: 30000, den: 1001 });
    }
    if str_eq(s, "ntsc_film") {
        return Some(Fps { num: 24000, den: 1001 });
    }
    match split_once_char(s, '/') {
        Some((a, b)) => {
            proof {
                let i = choose|i: int|
                    0 <= i < s@.len() && s@[i] == '/' && (forall|j: int|
                        0 <= j < i ==> s@[j] != '/') && a@ == s@.subrange(0, i) && b@
                        == s@.subrange(i + 1, s@.len() as int);
                lemma_first_occurrence(s@, '/', i);
            }
            match (parse_u32(a), parse_u32(b)) {
                (Some(x), Some(y)) => {
                    if x > 0 && y > 0 {
                        Some(Fps { num: x, den: y })
                    } else {
                        None
                    }
                },
                _ => None,
            }
        },
        None => {
            proof {
                lemma_no_occurrence(s@, '/');
            }
            match split_once_char(s, '.') {
                Some((a, b)) => {
                    proof {
                        let i = choose|i: int|
                            0 <= i < s@.len() && s@[i] == '.' && (forall|j: int|
                                0 <= j < i ==> s@[j] != '.') && a@ == s@.subrange(0, i) && b@
                                == s@.subrange(i + 1, s@.len() as int);
                        lemma_first_occurrence(s@, '.', i);
                    }
                    let blen = b.unicode_len();
                    if blen == 0 || blen > 6 {
                        return None;
                    }
                    let p = pow10_exec(blen);
                    match (parse_u32(a), parse_u32(b)) {
                        (Some(x), Some(y)) => {
                            proof {
                                assert((x as int) * (p as int) <= (u32::MAX as int) * 1000000)
                                    by (nonlinear_arith)
                                    requires
                                        0 <= x <= u32::MAX,
                                        0 <= p <= 1000000,
                                ;
                            }
                            let num: u64 = (x as u64) * p + (y as u64);
                            if 0 < num && num <= u32::MAX as u64 {
                                Some(Fps { num: num as u32, den: p as u32 })
                            } else {
                                None
                            }
                        },
                        (None, _) => {
                            proof {
                                if a@.len() > 0 && all_dec_digits(a@) {
                                    // the whole-part value alone already overflows
                                    assert(dec_value(a@) * pow10(b@.len()) >= dec_value(a@) * 1)
                                        by (nonlinear_arith)
                                        requires
                                            pow10(b@.len()) >= 1,
                                            dec_value(a@) >= 0,
                                    ;
                                }
                            }
                            None
                        },
                        _ => None,
                    }
                },
                None => {
                    proof {
                        lemma_no_occurrence(s@, '.');
                    }
                    match parse_u32(s) {
                        Some(v) => {
                            if v > 0 {
                                Some(Fps { num: v, den: 1 })
                            } else {
                                None
                            }
                        },
                        None => None,
                    }
                },
            }
        },
    }
}

/// The value of the first comma-separated segment of a filter expression
/// that (after trimming spaces) starts with `fps=`, or `None`.
pub open spec fn spec_fps_token(segs: Seq<Seq<char>>) -> Option<Seq<char>>
    decreases segs.len(),
{
    if segs.len() == 0 {
        None
    } else if seq_starts_with(spec_trim_spaces(segs[0]), "fps="@) {
        let t = spec_trim_spaces(segs[0]);
        Some(t.subrange("fps="@.len() as int, t.len() as int))
    } else {
        spec_fps_token(segs.drop_first())
    }
}

/// When no segment before `i` carries the prefix, the token search may
/// start at `i`.
proof fn lemma_fps_token_skip(segs: Seq<Seq<char>>, i: int)
    requires
        0 <= i <= segs.len(),
        forall|j: int|
            0 <= j < i ==> !seq_starts_with(spec_trim_spaces(#[trigger] segs[j]), "fps="@),
    ensures
        spec_fps_token(segs) == spec_fps_token(segs.skip(i)),
    decreases i,
{
    if i == 0 {
        assert(segs.skip(0) =~= segs);
    } else {
        lemma_fps_token_skip(segs, i - 1);
        let tail = segs.skip(i - 1);
        assert(tail[0] == segs[i - 1]);
        assert(!seq_starts_with(spec_trim_spaces(tail[0]), "fps="@));
        assert(tail.drop_first() =~= segs.skip(i));
        assert(spec_fps_token(tail) == spec_fps_token(tail.drop_first()));
    }
}

/// The frame rate named by an explicit `fps=` token of the filter
/// expression `vfilter`: the first such token decides, and its value,
/// trimmed of spaces, is read as [`spec_parse_fps`] describes.
pub open spec fn spec_vfilter_fps(vfilter: Seq<char>) -> Option<(int, int)> {
    match spec_fps_token(split_seq(vfilter, ',')) {
        Some(v) => spec_parse_fps(spec_trim_spaces(v)),
        None => None,
    }
}

/// Extract the frame rate fixed by an `fps=` token of a filter
/// expression, if any.
pub fn try_parse_fps_vfilter(vfilter: &str) -> (r: Option<Fps>)
    ensures
        match r {
            Some(f) => spec_vfilter_fps(vfilter@) == Some((f.num as int, f.den as int)),
            None => spec_vfilter_fps(vfilter@) is None,
        },
{
    let segs = split_char(vfilter, ',');
    let ghost dv = segs.deep_view();
    let mut i: usize = 0;
    while i < segs.len()
        invariant
            dv == segs.deep_view(),
            dv == split_seq(vfilter@, ','),
            i <= segs.len(),
            segs.len() == dv.len(),
            forall|j: int|
                0 <= j < i ==> !seq_starts_with(spec_trim_spaces(#[trigger] dv[j]), "fps="@),
        decreases segs.len() - i,
    {
        let t = trim_spaces(segs[i].as_str());
        if str_starts_with(t, "fps=") {
            proof {
                lemma_fps_token_skip(dv, i as int);
                assert(dv.skip(i as int)[0] == dv[i as int]);
                reveal_strlit("fps=");
            }
            let tlen = t.unicode_len();
            let v = trim_spaces(substring(t, 4, tlen));
            return parse_fps_value(v);
        }
        i += 1;
    }
    proof {
        lemma_fps_token_skip(dv, dv.len() as int);
        assert(dv.skip(dv.len() as int) =~= Seq::<Seq<char>>::empty());
    }
    None
}

} // verus!
