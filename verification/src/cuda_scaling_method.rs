//! The hardware scale filter, carrying the configured interpolation
//! method.

use vstd::prelude::*;

use vstd::string::StringExecFns;

verus! {

/// The hardware scale step for an interpolation method.
pub open spec fn spec_cuda_scale(method: Seq<char>) -> Seq<char> {
    "scale_cuda=format=nv12:interp_algo="@ + method
}

/// The hardware scale filter with `method` as its interpolation
/// algorithm.
pub fn apply_cuda_scaling_method(method: &str) -> (r: String)
    ensures
        r@ == spec_cuda_scale(method@),
{
    let mut s = String::from_str("scale_cuda=format=nv12:interp_algo=");
    s.append(method);
    s
}

} // verus!
