//! Keyframe intervals: a frame count, or a duration converted to frames
//! through a frame rate.

use vstd::prelude::*;

use crate::error::EncodeError;
use crate::fps::Fps;
use crate::strutil::{all_dec_digits, dec_value, is_dec_digit, parse_u64, str_eq, substring};
use vstd::string::StrSliceExecFns;
use vstd::string::StringExecFns;

verus! {

/// A maximum spacing between forced keyframes, given either directly in
/// frames or as a span of time (held in milliseconds).
#[derive(Clone, Copy, Debug, PartialEq, Eq, Structural)]
pub enum KeyInterval {
    Frames(u64),
    Duration(u64),
}

/// Why a spelling is not a keyframe interval: both readings are reported.
#[derive(Clone, Debug, PartialEq, Eq)]
pub struct KeyIntervalError {
    /// Why the spelling is not a frame count.
    pub int_reason: String,
    /// Why the spelling is not a duration.
    pub duration_reason: String,
}

impl KeyIntervalError {
    /// Render the failure, reporting both readings.
    pub fn message(&self) -> (r: String)
        ensures
            r@ == "not a keyframe interval: "@ + self.int_reason@ + "; "@ + self.duration_reason@,
    {
        let mut m = String::from_str("not a keyframe interval: ");
        m.append(self.int_reason.as_str());
        m.append("; ");
        m.append(self.duration_reason.as_str());
        m
    }
}

/// The length of the longest digit prefix of `s`.
pub open spec fn digit_prefix_len(s: Seq<char>) -> int
    decreases s.len(),
{
    if s.len() == 0 || !is_dec_digit(s[0]) {
        0
    } else {
        1 + digit_prefix_len(s.drop_first())
    }
}

/// What `digit_prefix_len` returns: digits up to it, a non-digit (or the
/// end) at it.
pub proof fn lemma_digit_prefix(s: Seq<char>)
    ensures
        0 <= digit_prefix_len(s) <= s.len(),
        forall|j: int| 0 <= j < digit_prefix_len(s) ==> is_dec_digit(#[trigger] s[j]),
        digit_prefix_len(s) < s.len() ==> !is_dec_digit(s[digit_prefix_len(s)]),
    decreases s.len(),
{
    if s.len() > 0 && is_dec_digit(s[0]) {
        lemma_digit_prefix(s.drop_first());
        let d = digit_prefix_len(s.drop_first());
        assert forall|j: int| 0 <= j < d + 1 implies is_dec_digit(#[trigger] s[j]) by {
            if j > 0 {
                assert(s.drop_first()[j - 1] == s[j]);
            }
        }
        if d + 1 < s.len() {
            assert(s.drop_first()[d] == s[d + 1]);
        }
    }
}

/// Milliseconds in one unit of time, or `-1` for an unknown unit. The
/// units are `ms`, seconds (`s`, `sec`, `secs`), minutes (`m`, `min`,
/// `mins`) and hours (`h`, `hr`, `hrs`, `hours`).
pub open spec fn unit_ms(u: Seq<char>) -> int {
    if u == "ms"@ {
        1
    } else if u == "s"@ || u == "sec"@ || u == "secs"@ {
        1000
    } else if u == "m"@ || u == "min"@ || u == "mins"@ {
        60000
    } else if u == "h"@ || u == "hr"@ || u == "hrs"@ || u == "hours"@ {
        3600000
    } else {
        -1
    }
}

/// `s` spells a frame count: a non-empty digit string whose value fits a
/// machine word.
pub open spec fn spec_frames_form(s: Seq<char>) -> bool {
    s.len() > 0 && all_dec_digits(s) && dec_value(s) <= u64::MAX
}

/// `s` spells a duration: digits followed by a known unit, the product in
/// milliseconds fitting a machine word.
pub open spec fn spec_duration_form(s: Seq<char>) -> bool {
    let d = digit_prefix_len(s);
    d > 0 && unit_ms(s.subrange(d, s.len() as int)) >= 0 && dec_value(s.subrange(0, d)) * unit_ms(
        s.subrange(d, s.len() as int),
    ) <= u64::MAX
}

/// The milliseconds a duration spelling denotes.
pub open spec fn spec_duration_ms(s: Seq<char>) -> int {
    let d = digit_prefix_len(s);
    dec_value(s.subrange(0, d)) * unit_ms(s.subrange(d, s.len() as int))
}

/// Parse a keyframe-interval spelling: a bare number is a frame count,
/// a number directly followed by one time unit (as [`unit_ms`] lists
/// them) is a duration. A duration is one number with one unit:
/// compound spellings of several units in sequence are not read. An
/// invalid spelling reports why both readings failed.
pub fn parse_key_interval(s: &str) -> (r: Result<KeyInterval, KeyIntervalError>)
    ensures
        spec_frames_form(s@) ==> r == Ok::<KeyInterval, KeyIntervalError>(
            KeyInterval::Frames(dec_value(s@) as u64),
        ),
        !spec_frames_form(s@) && spec_duration_form(s@) ==> r == Ok::<
            KeyInterval,
            KeyIntervalError,
        >(KeyInterval::Duration(spec_duration_ms(s@) as u64)),
        match r {
            Ok(ki) => (ki matches KeyInterval::Frames(_) ==> spec_frames_form(s@)) && (
            ki matches KeyInterval::Duration(_) ==> !spec_frames_form(s@) && spec_duration_form(
                s@,
            )),
            Err(e) => !spec_frames_form(s@) && !spec_duration_form(s@) && e.int_reason@ == (
            if s@.len() > 0 && all_dec_digits(s@) {
                "frame count too large"@
            } else {
                "expected an unsigned whole number of frames"@
            }) && e.duration_reason@ == ({
                let d = digit_prefix_len(s@);
                if d > 0 && unit_ms(s@.subrange(d, s@.len() as int)) >= 0 {
                    "duration too large"@
                } else {
                    "expected a number followed by a time unit (ms, s, m, h)"@
                }
            }),
        },
{
    match parse_u64(s) {
        Some(v) => {
            return Ok(KeyInterval::Frames(v));
        },
        None => {},
    }
    // not a plain frame count; try digits followed by a unit
    let n = s.unicode_len();
    let i = digit_prefix_exec(s);
    let digits = substring(s, 0, i);
    let unit = substring(s, i, n);
    let mult: u64 = if str_eq(unit, "ms") {
        1
    } else if str_eq(unit, "s") || str_eq(unit, "sec") || str_eq(unit, "secs") {
        1000
    } else if str_eq(unit, "m") || str_eq(unit, "min") || str_eq(unit, "mins") {
        60000
    } else if str_eq(unit, "h") || str_eq(unit, "hr") || str_eq(unit, "hrs") || str_eq(
        unit,
        "hours",
    ) {
        3600000
    } else {
        0
    };
    proof {
        lemma_digit_prefix(s@);
        assert(digits@ == s@.subrange(0, digit_prefix_len(s@)));
        assert(unit@ == s@.subrange(digit_prefix_len(s@), s@.len() as int));
        assert(all_dec_digits(digits@)) by {
            assert(forall|k: int|
                0 <= k < digits@.len() ==> digits@[k] == s@.subrange(
                    0,
                    digit_prefix_len(s@),
                )[k]);
        }
        assert(mult > 0 ==> mult as int == unit_ms(unit@));
        assert(mult == 0 ==> unit_ms(unit@) == -1);
    }
    if i == 0 || mult == 0 {
        return Err(
            KeyIntervalError {
                int_reason: int_fail_reason(s),
                duration_reason: String::from_str(
                    "expected a number followed by a time unit (ms, s, m, h)",
                ),
            },
        );
    }
    match parse_u64(digits) {
        Some(v) => {
            if v > u64::MAX / mult {
                proof {
                    assert(v * mult > u64::MAX) by (nonlinear_arith)
                        requires
                            v > u64::MAX as int / mult as int,
                            mult >= 1,
                            v >= 0,
                    ;
                }
                Err(
                    KeyIntervalError {
                        int_reason: int_fail_reason(s),
                        duration_reason: String::from_str("duration too large"),
                    },
                )
            } else {
                proof {
                    assert(v * mult <= u64::MAX) by (nonlinear_arith)
                        requires
                            v <= u64::MAX as int / mult as int,
                            mult >= 1,
                            v >= 0,
                    ;
                }
                Ok(KeyInterval::Duration(v * mult))
            }
        },
        None => {
            // the digit prefix alone overflows a machine word
            proof {
                assert(dec_value(digits@) * mult >= dec_value(digits@) * 1) by (nonlinear_arith)
                    requires
                        mult >= 1,
                ;
            }
            Err(
                KeyIntervalError {
                    int_reason: int_fail_reason(s),
                    duration_reason: String::from_str("duration too large"),
                },
            )
        },
    }
}

/// The length of the longest digit prefix of `s`.
fn digit_prefix_exec(s: &str) -> (r: usize)
    ensures
        r == digit_prefix_len(s@),
        r <= s@.len(),
{
    let n = s.unicode_len();
    let mut i: usize = 0;
    while i < n
        invariant
            n == s@.len(),
            i <= n,
            forall|j: int| 0 <= j < i ==> is_dec_digit(#[trigger] s@[j]),
        decreases n - i,
    {
        let c = s.get_char(i);
        let cv = c as u32;
        if cv < 48 || cv > 57 {
            proof {
                lemma_digit_prefix(s@);
                if digit_prefix_len(s@) < i {
                    assert(is_dec_digit(s@[digit_prefix_len(s@)]));
                }
                if digit_prefix_len(s@) > i {
                    assert(is_dec_digit(s@[i as int]));
                }
            }
            return i;
        }
        i += 1;
    }
    proof {
        lemma_digit_prefix(s@);
        if digit_prefix_len(s@) < i {
            assert(is_dec_digit(s@[digit_prefix_len(s@)]));
        }
    }
    i
}

/// The frame-count reading's failure reason for an invalid spelling.
fn int_fail_reason(s: &str) -> (r: String)
    requires
        !spec_frames_form(s@),
    ensures
        r@ == if s@.len() > 0 && all_dec_digits(s@) {
            "frame count too large"@
        } else {
            "expected an unsigned whole number of frames"@
        },
{
    let n = s.unicode_len();
    let mut i: usize = 0;
    let mut all: bool = true;
    while i < n
        invariant
            n == s@.len(),
            i <= n,
            all == (forall|j: int| 0 <= j < i ==> is_dec_digit(#[trigger] s@[j])),
        decreases n - i,
    {
        let c = s.get_char(i);
        let cv = c as u32;
        if cv < 48 || cv > 57 {
            all = false;
        }
        i += 1;
    }
    if n > 0 && all {
        String::from_str("frame count too large")
    } else {
        String::from_str("expected an unsigned whole number of frames")
    }
}

/// `round(ms / 1000 * (num / den))`: the frame count covering `ms`
/// milliseconds at `num / den` frames per second, rounded half-up.
pub open spec fn spec_duration_frames(ms: int, num: int, den: int) -> int {
    (2 * ms * num + 1000 * den) / (2000 * den)
}

impl KeyInterval {
    /// The interval in frames: a frame count as given, a duration
    /// converted through `fps` and rounded to the nearest frame.
    /// A duration without a valid frame rate is unresolvable.
    pub fn frames(&self, fps: Option<&Fps>) -> (r: Result<u64, EncodeError>)
        ensures
            match *self {
                KeyInterval::Frames(n) => r == Ok::<u64, EncodeError>(n),
                KeyInterval::Duration(ms) => match fps {
                    Some(f) => if f.spec_valid() {
                        if spec_duration_frames(ms as int, f.num as int, f.den as int)
                            <= u64::MAX {
                            r == Ok::<u64, EncodeError>(
                                spec_duration_frames(ms as int, f.num as int, f.den as int) as u64,
                            )
                        } else {
                            r == Err::<u64, EncodeError>(EncodeError::FrameCountTooLarge)
                        }
                    } else {
                        r == Err::<u64, EncodeError>(EncodeError::UnresolvableFrameRate)
                    },
                    None => r == Err::<u64, EncodeError>(EncodeError::UnresolvableFrameRate),
                },
            },
    {
        match self {
            KeyInterval::Frames(n) => Ok(*n),
            KeyInterval::Duration(ms) => match fps {
                Some(f) => {
                    if !f.valid() {
                        return Err(EncodeError::UnresolvableFrameRate);
                    }
                    let ms128 = *ms as u128;
                    let num128 = f.num as u128;
                    let den128 = f.den as u128;
                    proof {
                        assert(2 * ms128 * num128 <= 2 * (u64::MAX as u128) * (u32::MAX as u128))
                            by (nonlinear_arith)
                            requires
                                0 <= ms128 <= u64::MAX as u128,
                                0 <= num128 <= u32::MAX as u128,
                        ;
                    }
                    let t: u128 = 2 * ms128 * num128 + 1000 * den128;
                    let d: u128 = 2000 * den128;
                    let q: u128 = t / d;
                    proof {
                        assert(q == spec_duration_frames(*ms as int, f.num as int, f.den as int));
                    }
                    if q > u64::MAX as u128 {
                        Err(EncodeError::FrameCountTooLarge)
                    } else {
                        Ok(q as u64)
                    }
                },
                None => Err(EncodeError::UnresolvableFrameRate),
            },
        }
    }
}

} // verus!
