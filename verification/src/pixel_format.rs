//! Supported output pixel formats, ordered by quality.

use vstd::prelude::*;

use crate::strutil::str_eq;

verus! {

/// A pixel format the encoder may be asked to produce.
///
/// The quality order is total: `Yuv420p < Yuv420p10le < Yuv422p10le <
/// Yuv444p10le`. A greater format carries at least as much chroma
/// information and bit depth.
#[derive(Clone, Copy, Debug, PartialEq, Eq, Structural, Hash)]
pub enum PixelFormat {
    Yuv420p,
    Yuv420p10le,
    Yuv422p10le,
    Yuv444p10le,
}

impl PixelFormat {
    /// Position of the format in the quality order, starting at zero.
    pub open spec fn spec_rank(self) -> nat {
        match self {
            PixelFormat::Yuv420p => 0,
            PixelFormat::Yuv420p10le => 1,
            PixelFormat::Yuv422p10le => 2,
            PixelFormat::Yuv444p10le => 3,
        }
    }

    /// Position of the format in the quality order, starting at zero.
    pub fn rank(self) -> (r: u32)
        ensures
            r == self.spec_rank(),
    {
        match self {
            PixelFormat::Yuv420p => 0,
            PixelFormat::Yuv420p10le => 1,
            PixelFormat::Yuv422p10le => 2,
            PixelFormat::Yuv444p10le => 3,
        }
    }

    /// The name under which the external tool knows the format.
    pub open spec fn spec_name(self) -> Seq<char> {
        match self {
            PixelFormat::Yuv420p => "yuv420p"@,
            PixelFormat::Yuv420p10le => "yuv420p10le"@,
            PixelFormat::Yuv422p10le => "yuv422p10le"@,
            PixelFormat::Yuv444p10le => "yuv444p10le"@,
        }
    }

    /// The name under which the external tool knows the format.
    pub fn name(self) -> (r: &'static str)
        ensures
            r@ == self.spec_name(),
    {
        match self {
            PixelFormat::Yuv420p => "yuv420p",
            PixelFormat::Yuv420p10le => "yuv420p10le",
            PixelFormat::Yuv422p10le => "yuv422p10le",
            PixelFormat::Yuv444p10le => "yuv444p10le",
        }
    }

    /// Parse a format name; the inverse of [`PixelFormat::name`].
    pub fn from_name(s: &str) -> (r: Option<PixelFormat>)
        ensures
            match r {
                Some(pf) => s@ == pf.spec_name(),
                None => forall|pf: PixelFormat| s@ != pf.spec_name(),
            },
    {
        let r = if str_eq(s, "yuv420p") {
            Some(PixelFormat::Yuv420p)
        } else if str_eq(s, "yuv420p10le") {
            Some(PixelFormat::Yuv420p10le)
        } else if str_eq(s, "yuv422p10le") {
            Some(PixelFormat::Yuv422p10le)
        } else if str_eq(s, "yuv444p10le") {
            Some(PixelFormat::Yuv444p10le)
        } else {
            None
        };
        proof {
            if r is None {
                assert forall|pf: PixelFormat| s@ != pf.spec_name() by {
                    match pf {
                        PixelFormat::Yuv420p => assert(s@ != "yuv420p"@),
                        PixelFormat::Yuv420p10le => assert(s@ != "yuv420p10le"@),
                        PixelFormat::Yuv422p10le => assert(s@ != "yuv422p10le"@),
                        PixelFormat::Yuv444p10le => assert(s@ != "yuv444p10le"@),
                    }
                }
            }
        }
        r
    }

    /// Whether `self` is a lower-quality format than `other`.
    pub open spec fn spec_lt(self, other: PixelFormat) -> bool {
        self.spec_rank() < other.spec_rank()
    }

    /// Whether `self` is a lower-quality format than `other`.
    pub fn lt(self, other: PixelFormat) -> (r: bool)
        ensures
            r == self.spec_lt(other),
    {
        self.rank() < other.rank()
    }

    /// The higher-quality of two formats.
    pub fn max(self, other: PixelFormat) -> (r: PixelFormat)
        ensures
            r.spec_rank() == if self.spec_rank() >= other.spec_rank() {
                self.spec_rank()
            } else {
                other.spec_rank()
            },
            r == self || r == other,
    {
        if self.rank() >= other.rank() {
            self
        } else {
            other
        }
    }

    /// The higher-quality of two optional formats; an absent side yields
    /// the other.
    pub fn opt_max(a: Option<PixelFormat>, b: Option<PixelFormat>) -> (r: Option<PixelFormat>)
        ensures
            match (a, b) {
                (Some(x), Some(y)) => r == Some(
                    if x.spec_rank() >= y.spec_rank() {
                        x
                    } else {
                        y
                    },
                ),
                (Some(x), None) => r == Some(x),
                (None, Some(y)) => r == Some(y),
                (None, None) => r is None,
            },
    {
        match (a, b) {
            (Some(x), Some(y)) => Some(x.max(y)),
            (Some(x), None) => Some(x),
            (None, Some(y)) => Some(y),
            (None, None) => None,
        }
    }
}

/// The quality order on pixel formats is total and monotonic:
/// `Yuv420p < Yuv420p10le < Yuv422p10le < Yuv444p10le`, the order is
/// irreflexive, transitive, and any two distinct formats are comparable.
pub proof fn lemma_pixel_format_order_total(a: PixelFormat, b: PixelFormat, c: PixelFormat)
    ensures
        PixelFormat::Yuv420p.spec_lt(PixelFormat::Yuv420p10le),
        PixelFormat::Yuv420p10le.spec_lt(PixelFormat::Yuv422p10le),
        PixelFormat::Yuv422p10le.spec_lt(PixelFormat::Yuv444p10le),
        !a.spec_lt(a),
        a.spec_lt(b) && b.spec_lt(c) ==> a.spec_lt(c),
        a != b ==> a.spec_lt(b) || b.spec_lt(a),
        a.spec_lt(b) ==> !b.spec_lt(a),
{
    if a != b {
        assert(a.spec_rank() != b.spec_rank());
    }
}

} // verus!
